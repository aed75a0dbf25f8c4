//! The decisions of a window host's event loop, taken apart from the window
//! system: how a surface size maps to a grid, which window a command is for,
//! where a wheel turn goes, when to redraw after input, and what one pass of
//! the loop does for a window.

use vstd::prelude::*;
use crate::damage::{FNV_PRIME, fnv_mix};
use crate::native_scroll::PaneKind;
use crate::timing::{
    FrameDecision, FrameScheduler, RedrawWork, SYNCHRONIZED_UPDATE_TIMEOUT, SchedulerState,
    SynchronizedUpdateGate, spec_earlier_deadline, spec_expire, io_processed_defers,
    spec_gate_deadline, spec_io_processed, spec_observe, spec_prepare, earlier_deadline,
};

verus! {

/// The grid and the pixel size reported to the child for a surface.
#[derive(Debug, Clone, Copy, PartialEq, Eq, Structural)]
pub struct SurfaceGrid {
    pub cols: u16,
    pub rows: u16,
    pub pixel_width: u32,
    pub pixel_height: u32,
}

pub open spec fn at_least_one(v: usize) -> usize {
    if v >= 1 {
        v
    } else {
        1
    }
}

/// Cells that fit along `pixels`, as the `u16` count the terminal keeps,
/// never zero.
pub open spec fn cells_along(pixels: u32, cell: usize) -> u16 {
    let n = ((pixels as usize / at_least_one(cell)) as u16);
    if n >= 1 {
        n
    } else {
        1u16
    }
}

/// `cells` cells of `cell` pixels, saturated at `u32::MAX`.
pub open spec fn pixels_of(cells: u16, cell: usize) -> u32 {
    let c: int = if at_least_one(cell) <= u32::MAX { at_least_one(cell) as int } else { u32::MAX as int };
    if cells * c <= u32::MAX {
        (cells * c) as u32
    } else {
        u32::MAX
    }
}

/// The grid a `width` x `height` pixel surface holds with cells of
/// `cell_w` x `cell_h` pixels (zero taken as one): at least one cell each
/// way, and the pixel size of that grid.
pub fn grid_size_for_surface(width: u32, height: u32, cell_w: usize, cell_h: usize) -> (g: SurfaceGrid)
    ensures
        g.cols == cells_along(width, cell_w),
        g.rows == cells_along(height, cell_h),
        g.pixel_width == pixels_of(g.cols, cell_w),
        g.pixel_height == pixels_of(g.rows, cell_h),
{
    let cw = if cell_w >= 1 { cell_w } else { 1 };
    let ch = if cell_h >= 1 { cell_h } else { 1 };
    let c0 = (width as usize / cw) as u16;
    let r0 = (height as usize / ch) as u16;
    let cols = if c0 >= 1 { c0 } else { 1 };
    let rows = if r0 >= 1 { r0 } else { 1 };
    let cw32: u32 = if cw <= 0xffff_ffff { cw as u32 } else { 0xffff_ffff };
    let ch32: u32 = if ch <= 0xffff_ffff { ch as u32 } else { 0xffff_ffff };
    let pw = match (cols as u32).checked_mul(cw32) {
        Some(p) => p,
        None => 0xffff_ffff,
    };
    let ph = match (rows as u32).checked_mul(ch32) {
        Some(p) => p,
        None => 0xffff_ffff,
    };
    SurfaceGrid { cols, rows, pixel_width: pw, pixel_height: ph }
}

/// The window a command is for: the one it names, else the focused one,
/// else `first_open` (any open window).
pub fn resolve_target_window(requested: Option<u64>, focused: Option<u64>, first_open: Option<u64>) -> (id: Option<u64>)
    ensures
        id == (if requested is Some {
            requested
        } else if focused is Some {
            focused
        } else {
            first_open
        }),
{
    match requested {
        Some(id) => Some(id),
        None => match focused {
            Some(id) => Some(id),
            None => first_open,
        },
    }
}

/// Where a turn of the mouse wheel goes.
#[derive(Debug, Clone, Copy, PartialEq, Eq, Structural)]
pub enum WheelRoute {
    /// A pane of the child scrolled itself natively.
    Pane,
    /// The child asked for mouse reports: report the wheel to it.
    MouseReport,
    /// The alternate screen wants wheel turns as cursor keys.
    CursorKeys,
    /// The terminal's own scrollback moves.
    Scrollback,
}

/// Routes a wheel turn: a pane that took it keeps it, then mouse reporting
/// wins, then cursor keys on the alternate screen, then the scrollback.
pub fn wheel_route(pane_took_it: bool, mouse_reporting: bool, alternate_scroll: bool, in_alt_screen: bool) -> (r: WheelRoute)
    ensures
        r == (if pane_took_it {
            WheelRoute::Pane
        } else if mouse_reporting {
            WheelRoute::MouseReport
        } else if alternate_scroll && in_alt_screen {
            WheelRoute::CursorKeys
        } else {
            WheelRoute::Scrollback
        }),
{
    if pane_took_it {
        WheelRoute::Pane
    } else if mouse_reporting {
        WheelRoute::MouseReport
    } else if alternate_scroll && in_alt_screen {
        WheelRoute::CursorKeys
    } else {
        WheelRoute::Scrollback
    }
}

/// Lines a page key scrolls the view: half the screen.
pub fn page_scroll_lines(rows: u16) -> (n: usize)
    ensures
        n == rows / 2,
{
    (rows / 2) as usize
}

/// The bytes reported to a child that asked for focus events.
pub fn focus_report(focused: bool) -> (bytes: Vec<u8>)
    ensures
        bytes@ == (if focused { seq![0x1bu8, 0x5b, 0x49] } else { seq![0x1bu8, 0x5b, 0x4f] }),
{
    let v = if focused { vec![0x1bu8, 0x5b, 0x49] } else { vec![0x1bu8, 0x5b, 0x4f] };
    assert(v@ =~= (if focused { seq![0x1bu8, 0x5b, 0x49] } else { seq![0x1bu8, 0x5b, 0x4f] }));
    v
}

/// The start and end markers of a bracketed paste.
pub open spec fn paste_start() -> Seq<u8> {
    seq![0x1bu8, 0x5b, 0x32, 0x30, 0x30, 0x7e]
}

pub open spec fn paste_end() -> Seq<u8> {
    seq![0x1bu8, 0x5b, 0x32, 0x30, 0x31, 0x7e]
}

/// The bytes a paste of `text` sends: wrapped in the paste markers when the
/// child asked for bracketed paste.
pub fn paste_bytes(text: &[u8], bracketed: bool) -> (bytes: Vec<u8>)
    ensures
        bytes@ == (if bracketed { paste_start() + text@ + paste_end() } else { text@ }),
{
    let mut out: Vec<u8> = Vec::new();
    if bracketed {
        out = vec![0x1bu8, 0x5b, 0x32, 0x30, 0x30, 0x7e];
        assert(out@ =~= paste_start());
    }
    let ghost start = out@;
    let mut i: usize = 0;
    while i < text.len()
        invariant
            i <= text@.len(),
            out@ == start + text@.subrange(0, i as int),
        decreases text.len() - i,
    {
        out.push(text[i]);
        i += 1;
        assert(out@ =~= start + text@.subrange(0, i as int));
    }
    assert(text@.subrange(0, text@.len() as int) =~= text@);
    if bracketed {
        let ghost mid = out@;
        out.push(0x1b);
        out.push(0x5b);
        out.push(0x32);
        out.push(0x30);
        out.push(0x31);
        out.push(0x7e);
        assert(out@ =~= mid + paste_end());
    }
    out
}

/// A bracketed paste is the text between `ESC [ 200 ~` and `ESC [ 201 ~`;
/// the two markers differ only in their last digit.
pub proof fn law_bracketed_paste_markers(text: Seq<u8>)
    ensures
        paste_start() == seq![0x1bu8, 0x5b, 0x32, 0x30, 0x30, 0x7e],
        paste_end() == seq![0x1bu8, 0x5b, 0x32, 0x30, 0x31, 0x7e],
        (paste_start() + text + paste_end()).subrange(6, 6 + text.len() as int) == text,
        paste_start().update(4, 0x31u8) == paste_end(),
{
    assert(paste_start().update(4, 0x31u8) =~= paste_end());
    assert((paste_start() + text + paste_end()).subrange(6, 6 + text.len() as int) =~= text);
}

/// A clipboard shortcut typed with Ctrl+Shift.
#[derive(Debug, Clone, Copy, PartialEq, Eq, Structural)]
pub enum ClipboardShortcut {
    Paste,
    Copy,
}

/// Ctrl+Shift+V pastes and Ctrl+Shift+C copies, on the first press of the
/// key (not on auto-repeat), whatever the letter's case.
pub fn clipboard_shortcut(ctrl: bool, shift: bool, repeat: bool, first_char: Option<char>) -> (r: Option<ClipboardShortcut>)
    ensures
        r == (if ctrl && shift && !repeat {
            match first_char {
                Some(c) => if c == 'v' || c == 'V' {
                    Some(ClipboardShortcut::Paste)
                } else if c == 'c' || c == 'C' {
                    Some(ClipboardShortcut::Copy)
                } else {
                    None
                },
                None => None,
            }
        } else {
            None
        }),
{
    if !(ctrl && shift && !repeat) {
        return None;
    }
    match first_char {
        Some(c) => if c == 'v' || c == 'V' {
            Some(ClipboardShortcut::Paste)
        } else if c == 'c' || c == 'C' {
            Some(ClipboardShortcut::Copy)
        } else {
            None
        },
        None => None,
    }
}

/// After input reached the child: the focused window redraws at once; any
/// other window goes through the frame scheduler. Returns whether to
/// request a redraw now.
pub fn redraw_after_input(scheduler: &mut FrameScheduler, focused: bool, now: u64, frame_interval: u64, work: RedrawWork) -> (r: bool)
    requires
        !focused && io_processed_defers(old(scheduler)@, now, frame_interval, work) ==> now
            + frame_interval <= u64::MAX,
    ensures
        focused ==> r && final(scheduler)@ == (SchedulerState {
            redraw_at: None,
            redraw_pending: true,
            ..old(scheduler)@
        }),
        !focused ==> (final(scheduler)@, r) == spec_io_processed(old(scheduler)@, now, frame_interval, work),
{
    if focused {
        scheduler.mark_redraw_needed();
        true
    } else {
        scheduler.mark_io_processed(now, frame_interval, work)
    }
}

/// What one pass of the event loop decided for a window.
#[derive(Debug, Clone, Copy, PartialEq, Eq, Structural)]
pub struct WindowTick {
    /// The window should be redrawn.
    pub redraw: bool,
    /// The child's synchronized update timed out and must be ended.
    pub finish_sync: bool,
    /// The earliest instant the loop must wake up for this window.
    pub deadline: Option<u64>,
}

/// The scheduler after the cursor blink changed what is visible.
pub open spec fn after_blink(s: SchedulerState, blink_changed: bool) -> SchedulerState {
    if blink_changed {
        SchedulerState { redraw_at: None, redraw_pending: true, ..s }
    } else {
        s
    }
}

/// One pass of the event loop for a window: the update tracker, the scheduler and the
/// decision after it, given the blink change and deadline, whether the
/// child holds a synchronized update, and the time.
pub open spec fn spec_tick(
    gate: Option<u64>,
    s: SchedulerState,
    sync_active: bool,
    now: u64,
    blink_changed: bool,
    blink_deadline: Option<u64>,
) -> (Option<u64>, SchedulerState, WindowTick) {
    let s1 = after_blink(s, blink_changed);
    let d1 = blink_deadline;
    if sync_active {
        let g1 = spec_observe(gate, true, now).0;
        let (g2, expired) = spec_expire(g1, now);
        if !expired {
            let d2 = match spec_gate_deadline(g2) {
                Some(d) => spec_earlier_deadline(d1, d),
                None => d1,
            };
            (g2, s1, WindowTick { redraw: false, finish_sync: false, deadline: d2 })
        } else {
            let s2 = SchedulerState { redraw_at: None, redraw_pending: true, ..s1 };
            let (s3, decision) = spec_prepare(s2, now, RedrawWork { changed: false, heavy: false });
            let d3 = match decision.wait_until {
                Some(d) => spec_earlier_deadline(d1, d),
                None => d1,
            };
            (g2, s3, WindowTick { redraw: true, finish_sync: true, deadline: d3 })
        }
    } else {
        let (s3, decision) = spec_prepare(s1, now, RedrawWork { changed: false, heavy: false });
        let d3 = match decision.wait_until {
            Some(d) => spec_earlier_deadline(d1, d),
            None => d1,
        };
        (gate, s3, WindowTick { redraw: decision.request_redraw, finish_sync: false, deadline: d3 })
    }
}

/// The work of a pass that brought no new terminal input.
fn no_new_input() -> (w: RedrawWork)
    ensures
        w == (RedrawWork { changed: false, heavy: false }),
{
    RedrawWork { changed: false, heavy: false }
}

/// One pass of the event loop for a window. A synchronized update of the
/// child holds the frame until it ends or times out; a timed-out update is
/// ended and the window redrawn. Otherwise the scheduler decides, with no
/// new terminal input to process.
pub fn tick_window(
    gate: &mut SynchronizedUpdateGate,
    scheduler: &mut FrameScheduler,
    sync_active: bool,
    now: u64,
    blink_changed: bool,
    blink_deadline: Option<u64>,
) -> (t: WindowTick)
    requires
        old(gate).wf(),
        now <= u64::MAX - SYNCHRONIZED_UPDATE_TIMEOUT,
        now + old(scheduler)@.frame_interval <= u64::MAX,
    ensures
        final(gate).wf(),
        (final(gate)@, final(scheduler)@, t) == spec_tick(old(gate)@, old(scheduler)@, sync_active, now, blink_changed, blink_deadline),
{
    if blink_changed {
        scheduler.mark_redraw_needed();
    }
    let mut deadline: Option<u64> = blink_deadline;
    let mut redraw = false;
    let mut finish_sync = false;
    if sync_active {
        let _ = gate.observe(true, now);
        if gate.expire(now) {
            finish_sync = true;
            scheduler.mark_redraw_needed();
            redraw = true;
        } else {
            if let Some(d) = gate.deadline() {
                deadline = earlier_deadline(deadline, d);
            }
            return WindowTick { redraw: false, finish_sync: false, deadline };
        }
    }
    let decision: FrameDecision = scheduler.prepare_redraw(now, no_new_input);
    if let Some(d) = decision.wait_until {
        deadline = earlier_deadline(deadline, d);
    }
    if decision.request_redraw {
        redraw = true;
    }
    WindowTick { redraw, finish_sync, deadline }
}

/// The periodic frames a window draws on its own: while it is "hot" (just
/// after input, until `hot_until`) and while smooth scrolling animates, one
/// frame per interval, the next one due at `next_frame_at`.
#[derive(Debug, Clone, Copy, PartialEq, Eq, Structural)]
pub struct HotFrames {
    pub hot_until: Option<u64>,
    pub next_frame_at: Option<u64>,
}

/// Input at `now` makes the window hot for `duration`, with a frame due at
/// once.
pub fn enter_hot_mode(now: u64, duration: u64) -> (h: HotFrames)
    requires
        now + duration <= u64::MAX,
    ensures
        h == (HotFrames { hot_until: Some((now + duration) as u64), next_frame_at: Some(now) }),
{
    HotFrames { hot_until: Some(now + duration), next_frame_at: Some(now) }
}

/// One periodic source at `now`: a due frame is drawn and the next one
/// scheduled an interval later; otherwise the loop must wake when it is due.
pub open spec fn periodic_step(next: Option<u64>, now: u64, interval: u64) -> (Option<u64>, bool, Option<u64>) {
    let due = match next {
        Some(t) => t,
        None => now,
    };
    if now >= due {
        (Some((now + interval) as u64), true, None)
    } else {
        (next, false, Some(due))
    }
}

pub open spec fn min_deadline(a: Option<u64>, b: Option<u64>) -> Option<u64> {
    match (a, b) {
        (Some(x), Some(y)) => Some(if x <= y { x } else { y }),
        (Some(x), None) => Some(x),
        (None, y) => y,
    }
}

/// The periodic frames after the scheduler's decision: none while a deferred
/// frame is pending; else the animation source (when smooth scrolling
/// animates) and then the hot source (when the window is focused and hot,
/// which ends once `hot_until` has passed).
pub open spec fn spec_periodic(
    hot: HotFrames,
    decision: FrameDecision,
    animating: bool,
    focused: bool,
    now: u64,
    interval: u64,
) -> (HotFrames, bool, Option<u64>) {
    if decision.wait_until is Some {
        (hot, false, None)
    } else {
        let (n1, r1, d1) = if animating {
            periodic_step(hot.next_frame_at, now, interval)
        } else {
            (hot.next_frame_at, false, None)
        };
        if focused && hot.hot_until is Some {
            if now < hot.hot_until->0 {
                let (n2, r2, d2) = periodic_step(n1, now, interval);
                (HotFrames { hot_until: hot.hot_until, next_frame_at: n2 }, r1 || r2, min_deadline(d1, d2))
            } else {
                (HotFrames { hot_until: None, next_frame_at: None }, r1, d1)
            }
        } else {
            (HotFrames { hot_until: hot.hot_until, next_frame_at: n1 }, r1, d1)
        }
    }
}

fn step_exec(next: Option<u64>, now: u64, interval: u64) -> (r: (Option<u64>, bool, Option<u64>))
    requires
        now + interval <= u64::MAX,
    ensures
        r == periodic_step(next, now, interval),
{
    let due = match next {
        Some(t) => t,
        None => now,
    };
    if now >= due {
        (Some(now + interval), true, None)
    } else {
        (next, false, Some(due))
    }
}

/// The periodic frames of a window after the scheduler decided: returns
/// whether to draw now and when the loop must wake up next for them. A
/// deferred frame of the scheduler holds them back, so that no periodic frame
/// shows half-parsed output.
pub fn periodic_tick(hot: &mut HotFrames, decision: FrameDecision, animating: bool, focused: bool, now: u64, interval: u64) -> (r: (bool, Option<u64>))
    requires
        now + interval <= u64::MAX,
    ensures
        spec_periodic(*old(hot), decision, animating, focused, now, interval) == (*final(hot), r.0, r.1),
{
    if decision.blocks_periodic_redraw() {
        return (false, None);
    }
    let (n1, r1, d1) = if animating {
        step_exec(hot.next_frame_at, now, interval)
    } else {
        (hot.next_frame_at, false, None)
    };
    hot.next_frame_at = n1;
    if focused {
        if let Some(until) = hot.hot_until {
            if now < until {
                let (n2, r2, d2) = step_exec(n1, now, interval);
                hot.next_frame_at = n2;
                let d = match (d1, d2) {
                    (Some(x), Some(y)) => Some(if x <= y { x } else { y }),
                    (Some(x), None) => Some(x),
                    (None, y) => y,
                };
                return (r1 || r2, d);
            } else {
                hot.hot_until = None;
                hot.next_frame_at = None;
                return (r1, d1);
            }
        }
    }
    (r1, d1)
}

/// A pending deferred frame holds back every periodic frame and leaves the
/// periodic state as it was.
pub proof fn law_deferred_frame_holds_periodic_frames(
    hot: HotFrames,
    decision: FrameDecision,
    animating: bool,
    focused: bool,
    now: u64,
    interval: u64,
)
    requires
        decision.wait_until is Some,
    ensures
        spec_periodic(hot, decision, animating, focused, now, interval) == (hot, false, None::<u64>),
{
}

/// What of a pane's visual scroll enters the frame signature: the pane, its
/// cell rectangle and the bits of its fractional row offset.
#[derive(Debug, Clone, Copy, PartialEq, Eq, Structural)]
pub struct PaneScrollKey {
    pub kind: PaneKind,
    pub x: u16,
    pub y: u16,
    pub width: u16,
    pub height: u16,
    pub offset_bits: u32,
}

pub open spec fn pane_kind_code(k: PaneKind) -> u64 {
    match k {
        PaneKind::Chat => 0,
        PaneKind::SidePanel => 1,
    }
}

/// `hash` with the six values of one pane scroll mixed in.
pub open spec fn mix_scroll(hash: u64, k: PaneScrollKey) -> u64 {
    let h1 = fnv_mix(hash, pane_kind_code(k.kind));
    let h2 = fnv_mix(h1, k.x as u64);
    let h3 = fnv_mix(h2, k.y as u64);
    let h4 = fnv_mix(h3, k.width as u64);
    let h5 = fnv_mix(h4, k.height as u64);
    fnv_mix(h5, k.offset_bits as u64)
}

/// `hash` with the first `n` pane scrolls mixed in.
pub open spec fn mix_scrolls(hash: u64, scrolls: Seq<PaneScrollKey>, n: int) -> u64
    decreases n,
{
    if n <= 0 {
        hash
    } else {
        mix_scroll(mix_scrolls(hash, scrolls, n - 1), scrolls[n - 1])
    }
}

fn mix_exec(hash: u64, value: u64) -> (h: u64)
    ensures
        h == fnv_mix(hash, value),
{
    (hash ^ value).wrapping_mul(FNV_PRIME)
}

/// The signature of a frame whose panes are drawn visually scrolled: the
/// terminal's signature with the number of scrolls, then each scroll, mixed
/// in, so a frame is presented again when only a pane's offset changed.
pub fn signature_with_pane_scrolls(base: u64, scrolls: &[PaneScrollKey]) -> (h: u64)
    ensures
        h == mix_scrolls(fnv_mix(base, scrolls@.len() as u64), scrolls@, scrolls@.len() as int),
{
    let mut hash = mix_exec(base, scrolls.len() as u64);
    let ghost start = hash;
    let mut i: usize = 0;
    while i < scrolls.len()
        invariant
            i <= scrolls@.len(),
            hash == mix_scrolls(start, scrolls@, i as int),
        decreases scrolls.len() - i,
    {
        let k = scrolls[i];
        let code: u64 = match k.kind {
            PaneKind::Chat => 0,
            PaneKind::SidePanel => 1,
        };
        hash = mix_exec(hash, code);
        hash = mix_exec(hash, k.x as u64);
        hash = mix_exec(hash, k.y as u64);
        hash = mix_exec(hash, k.width as u64);
        hash = mix_exec(hash, k.height as u64);
        hash = mix_exec(hash, k.offset_bits as u64);
        i += 1;
    }
    hash
}

} // verus!
