use handterm::cli::{Backend, Cli, Command};
use handterm::grid::{Selection, TerminalState};
use handterm::host::{
    clipboard_shortcut, enter_hot_mode, focus_report, grid_size_for_surface, page_scroll_lines,
    paste_bytes, periodic_tick, redraw_after_input, resolve_target_window,
    signature_with_pane_scrolls, tick_window, wheel_route, ClipboardShortcut, HotFrames,
    PaneScrollKey, WheelRoute,
};
use handterm::input::scrollback_wheel_delta;
use handterm::native_scroll::{
    child_process_envs, parse_window_id, reconcile_rows, PaneKind, PaneSnapshot, PaneState,
};
use handterm::timing::{
    FrameDecision, FrameScheduler, RedrawWork, SynchronizedUpdateGate, SYNCHRONIZED_UPDATE_TIMEOUT,
};

const MS: u64 = 1_000_000;

#[test]
fn scrollback_wheel_delta_uses_reduced_multiplier() {
    assert_eq!(scrollback_wheel_delta(1), 2);
    assert_eq!(scrollback_wheel_delta(3), 6);
}

#[test]
fn pane_hit_testing_uses_cell_rect() {
    let snapshot = PaneSnapshot {
        panes: vec![PaneState {
            kind: PaneKind::Chat,
            x: 2,
            y: 3,
            width: 10,
            height: 4,
            position: 0,
            content_length: 20,
            viewport_length: 4,
        }],
    };
    assert_eq!(snapshot.hovered_pane(2, 3), Some(PaneKind::Chat));
    assert_eq!(snapshot.hovered_pane(11, 6), Some(PaneKind::Chat));
    assert_eq!(snapshot.hovered_pane(12, 6), None);
}

#[test]
fn child_process_envs_preserve_term_program_when_bridge_setup_fails() {
    let envs = child_process_envs(None, 999_994);
    assert!(envs.iter().any(|(key, value)| *key == "TERM_PROGRAM" && value == "handterm"));
    assert_eq!(envs.len(), 1);

    let envs = child_process_envs(Some("/run/handterm.sock"), 42);
    assert_eq!(envs.len(), 3);
    assert_eq!(envs[2].1, "42");
}

#[test]
fn surface_grid_has_at_least_one_cell_and_saturates_pixels() {
    let g = grid_size_for_surface(801, 399, 8, 16);
    assert_eq!((g.cols, g.rows), (100, 24));
    assert_eq!((g.pixel_width, g.pixel_height), (800, 384));
    let tiny = grid_size_for_surface(3, 3, 8, 0);
    assert_eq!((tiny.cols, tiny.rows), (1, 3));
    let huge = grid_size_for_surface(u32::MAX, 10, 1, 1);
    assert_eq!(huge.cols, (u32::MAX as usize % 65536) as u16);
    let wide_cells = grid_size_for_surface(10, 10, usize::MAX, 1);
    assert_eq!(wide_cells.pixel_width, u32::MAX);
}

#[test]
fn commands_go_to_the_named_then_focused_then_any_window() {
    assert_eq!(resolve_target_window(Some(3), Some(2), Some(1)), Some(3));
    assert_eq!(resolve_target_window(None, Some(2), Some(1)), Some(2));
    assert_eq!(resolve_target_window(None, None, Some(1)), Some(1));
    assert_eq!(resolve_target_window(None, None, None), None);
}

#[test]
fn wheel_turns_are_routed_by_priority() {
    assert_eq!(wheel_route(true, true, true, true), WheelRoute::Pane);
    assert_eq!(wheel_route(false, true, true, true), WheelRoute::MouseReport);
    assert_eq!(wheel_route(false, false, true, true), WheelRoute::CursorKeys);
    assert_eq!(wheel_route(false, false, true, false), WheelRoute::Scrollback);
}

#[test]
fn page_keys_scroll_half_a_screen_within_the_scrollback() {
    let mut terminal = TerminalState::new(4, 10);
    for _ in 0..7 {
        terminal.grid.scroll_up();
    }
    let half = page_scroll_lines(10);
    assert_eq!(half, 5);
    terminal.grid.scroll_view(half, true);
    assert_eq!(terminal.grid.scroll_offset, 5);
    terminal.grid.scroll_view(half, true);
    assert_eq!(terminal.grid.scroll_offset, 7);
    terminal.grid.scroll_view(half, false);
    assert_eq!(terminal.grid.scroll_offset, 2);
    terminal.grid.scroll_view(half, false);
    assert_eq!(terminal.grid.scroll_offset, 0);
}

#[test]
fn typing_returns_to_the_live_screen() {
    let mut terminal = TerminalState::new(4, 2);
    terminal.grid.scroll_up();
    terminal.grid.clear_dirty();
    terminal.grid.scroll_offset = 1;
    terminal.grid.selection = Some(Selection { start_col: 0, start_row: 0, end_col: 1, end_row: 0 });
    terminal.grid.return_to_live_view();
    assert_eq!(terminal.grid.scroll_offset, 0);
    assert!(terminal.grid.all_dirty);
    assert_eq!(terminal.grid.selection, None);

    terminal.grid.clear_dirty();
    terminal.grid.return_to_live_view();
    assert!(!terminal.grid.all_dirty, "a live view is not redrawn whole");
}

#[test]
fn focus_and_paste_bytes() {
    assert_eq!(focus_report(true), b"\x1b[I".to_vec());
    assert_eq!(focus_report(false), b"\x1b[O".to_vec());
    assert_eq!(paste_bytes(b"hi", false), b"hi".to_vec());
    assert_eq!(paste_bytes(b"hi", true), b"\x1b[200~hi\x1b[201~".to_vec());
}

#[test]
fn clipboard_shortcuts_need_ctrl_shift_and_a_fresh_press() {
    assert_eq!(clipboard_shortcut(true, true, false, Some('V')), Some(ClipboardShortcut::Paste));
    assert_eq!(clipboard_shortcut(true, true, false, Some('c')), Some(ClipboardShortcut::Copy));
    assert_eq!(clipboard_shortcut(true, true, true, Some('v')), None);
    assert_eq!(clipboard_shortcut(true, false, false, Some('v')), None);
    assert_eq!(clipboard_shortcut(true, true, false, Some('x')), None);
}

#[test]
fn focused_window_redraws_at_once_after_input() {
    let mut scheduler = FrameScheduler::default();
    let heavy = RedrawWork { changed: true, heavy: true };
    assert!(redraw_after_input(&mut scheduler, true, 5 * MS, 8 * MS, heavy));
    let mut other = FrameScheduler::default();
    assert!(!redraw_after_input(&mut other, false, 5 * MS, 8 * MS, heavy));
}

#[test]
fn held_synchronized_update_waits_then_times_out() {
    let mut gate = SynchronizedUpdateGate::new();
    let mut scheduler = FrameScheduler::default();
    let t0 = 10 * MS;
    let tick = tick_window(&mut gate, &mut scheduler, true, t0, false, None);
    assert!(!tick.redraw && !tick.finish_sync);
    assert_eq!(tick.deadline, Some(t0 + SYNCHRONIZED_UPDATE_TIMEOUT));

    let tick = tick_window(&mut gate, &mut scheduler, true, t0 + SYNCHRONIZED_UPDATE_TIMEOUT, false, Some(t0 + 7));
    assert!(tick.redraw && tick.finish_sync);
    assert_eq!(tick.deadline, Some(t0 + 7));

    let tick = tick_window(&mut gate, &mut scheduler, false, t0 + SYNCHRONIZED_UPDATE_TIMEOUT + 1, true, None);
    assert!(tick.redraw && !tick.finish_sync);
    let tick = tick_window(&mut gate, &mut scheduler, false, t0 + SYNCHRONIZED_UPDATE_TIMEOUT + 2, false, None);
    assert!(!tick.redraw);
}

#[test]
fn pane_scroll_offsets_change_the_frame_signature() {
    let key = PaneScrollKey { kind: PaneKind::Chat, x: 0, y: 0, width: 80, height: 20, offset_bits: 0.25f32.to_bits() };
    let base = 0x1234;
    let none = signature_with_pane_scrolls(base, &[]);
    let one = signature_with_pane_scrolls(base, &[key]);
    let moved = signature_with_pane_scrolls(base, &[PaneScrollKey { offset_bits: 0.5f32.to_bits(), ..key }]);
    assert_ne!(none, one);
    assert_ne!(one, moved);
    assert_eq!(one, signature_with_pane_scrolls(base, &[key]));
    assert_eq!(none, (base ^ 0).wrapping_mul(0x100000001b3));
}

#[test]
fn command_line_values_carry_their_options() {
    let cli = Cli {
        config: None,
        backend: Some(Backend::Gpu),
        standalone: true,
        startup_command: Some("htop".to_string()),
        command: Some(Command::OpenWindow { to: None, cols: Some(80), rows: Some(24) }),
    };
    assert!(cli.standalone);
    assert_eq!(cli.backend, Some(Backend::Gpu));
    assert!(matches!(cli.command, Some(Command::OpenWindow { cols: Some(80), .. })));
}

#[test]
fn window_ids_read_back_as_written() {
    for id in [0u64, 7, 42, 999_994, u64::MAX] {
        let envs = child_process_envs(Some("/tmp/s.sock"), id);
        assert_eq!(parse_window_id(&envs[2].1), Some(id));
    }
    assert_eq!(parse_window_id("+12"), Some(12));
    assert_eq!(parse_window_id(""), None);
    assert_eq!(parse_window_id("+"), None);
    assert_eq!(parse_window_id("-1"), None);
    assert_eq!(parse_window_id("1x"), None);
    assert_eq!(parse_window_id("18446744073709551616"), None);
}

fn chat(position: usize, content_length: usize, viewport_length: usize) -> PaneState {
    PaneState { kind: PaneKind::Chat, x: 0, y: 0, width: 10, height: 4, position, content_length, viewport_length }
}

#[test]
fn pane_reports_acknowledge_rows_and_bound_motion() {
    let r = reconcile_rows(None, 3, &chat(5, 20, 4));
    assert_eq!((r.acknowledged, r.outstanding, r.rows_back, r.rows_forward), (0, 3, 5, 11));
    let r = reconcile_rows(Some(5), 3, &chat(7, 20, 4));
    assert_eq!((r.acknowledged, r.outstanding), (2, 1));
    let r = reconcile_rows(Some(7), 0, &chat(4, 20, 4));
    assert_eq!((r.acknowledged, r.outstanding), (-3, 3));
    let r = reconcile_rows(Some(0), i32::MIN, &chat(usize::MAX, 2, 4));
    assert_eq!((r.acknowledged, r.outstanding, r.rows_forward), (i32::MAX, i32::MIN, 0));
}

#[test]
fn snapshot_finds_the_first_pane_of_a_kind() {
    let mut second = chat(1, 2, 1);
    second.x = 9;
    let snapshot = PaneSnapshot { panes: vec![chat(0, 1, 1), second] };
    assert_eq!(snapshot.pane(PaneKind::Chat).map(|p| p.x), Some(0));
    assert_eq!(snapshot.pane(PaneKind::SidePanel), None);
}

#[test]
fn hot_window_draws_one_frame_per_interval_until_it_cools() {
    let frame = 8 * MS;
    let t0 = 100 * MS;
    let draw_now = FrameDecision { request_redraw: false, wait_until: None };
    let mut hot = enter_hot_mode(t0, 160 * MS);
    assert_eq!(hot, HotFrames { hot_until: Some(t0 + 160 * MS), next_frame_at: Some(t0) });

    assert_eq!(periodic_tick(&mut hot, draw_now, false, true, t0, frame), (true, None));
    assert_eq!(periodic_tick(&mut hot, draw_now, false, true, t0 + MS, frame), (false, Some(t0 + frame)));
    assert_eq!(periodic_tick(&mut hot, draw_now, false, false, t0 + frame, frame), (false, None));
    assert_eq!(periodic_tick(&mut hot, draw_now, false, true, t0 + frame, frame), (true, None));
    assert_eq!(periodic_tick(&mut hot, draw_now, false, true, t0 + 200 * MS, frame), (false, None));
    assert_eq!(hot, HotFrames { hot_until: None, next_frame_at: None });
}

#[test]
fn deferred_frame_holds_back_animation_and_hot_frames() {
    let t0 = 100 * MS;
    let mut hot = enter_hot_mode(t0, 160 * MS);
    let deferred = FrameDecision { request_redraw: false, wait_until: Some(t0 + 8 * MS) };
    let before = hot;
    assert_eq!(periodic_tick(&mut hot, deferred, true, true, t0, 8 * MS), (false, None));
    assert_eq!(hot, before);

    let mut idle = HotFrames { hot_until: None, next_frame_at: None };
    let draw_now = FrameDecision { request_redraw: false, wait_until: None };
    assert_eq!(periodic_tick(&mut idle, draw_now, true, false, t0, 8 * MS), (true, None));
    assert_eq!(idle.next_frame_at, Some(t0 + 8 * MS));
}

#[test]
fn bridge_child_envs_name_socket_window_and_terminal() {
    let envs = handterm::native_scroll::bridge_child_envs("/run/user/1/scroll.sock", 42);
    assert_eq!(
        envs,
        vec![
            ("HANDTERM_NATIVE_SCROLL_SOCKET", "/run/user/1/scroll.sock".to_string()),
            ("HANDTERM_WINDOW_ID", "42".to_string()),
            ("TERM_PROGRAM", "handterm".to_string()),
        ]
    );
}

#[test]
fn focused_window_redraws_after_input_at_any_instant() {
    let mut scheduler = handterm::timing::FrameScheduler::default();
    let heavy = handterm::timing::RedrawWork { changed: true, heavy: true };
    assert!(redraw_after_input(&mut scheduler, true, u64::MAX, u64::MAX, heavy));
}
