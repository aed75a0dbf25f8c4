//! Keyboard-side helpers: the bytes sent for wheel scrolling in alternate
//! screen applications, wheel step scaling, and synthetic modifier requests.

use vstd::prelude::*;

verus! {

/// Scrollback moves this many lines per wheel line.
pub const SCROLLBACK_WHEEL_STEP_MULTIPLIER: usize = 2;

/// The arrow-key sequence a wheel step is translated to: application cursor
/// mode uses SS3 (`ESC O A`/`B`), normal mode CSI (`ESC [ A`/`B`).
pub open spec fn spec_scroll_bytes(up: bool, app_cursor: bool) -> Seq<u8> {
    seq![0x1bu8, if app_cursor { 0x4fu8 } else { 0x5bu8 }, if up { 0x41u8 } else { 0x42u8 }]
}

/// The arrow-key bytes sent to the application for one wheel step.
pub fn scroll_to_bytes(up: bool, app_cursor: bool) -> (r: Vec<u8>)
    ensures
        r@ == spec_scroll_bytes(up, app_cursor),
{
    let introducer: u8 = if app_cursor { 0x4f } else { 0x5b };
    let direction: u8 = if up { 0x41 } else { 0x42 };
    let r = vec![0x1bu8, introducer, direction];
    assert(r@ =~= spec_scroll_bytes(up, app_cursor));
    r
}

/// A wheel step is an arrow key press: ESC, then `O` in application cursor
/// mode or `[` otherwise, then `A` (cursor up) for a step up or `B`
/// (cursor down) for a step down. Up and down differ only in that last
/// byte, and the two modes only in the middle one.
pub proof fn law_wheel_step_is_arrow_key(up: bool, app_cursor: bool)
    ensures
        spec_scroll_bytes(up, app_cursor).len() == 3,
        spec_scroll_bytes(up, app_cursor)[0] == 0x1b,
        app_cursor ==> spec_scroll_bytes(up, app_cursor)[1] == 0x4f,
        !app_cursor ==> spec_scroll_bytes(up, app_cursor)[1] == 0x5b,
        up ==> spec_scroll_bytes(up, app_cursor)[2] == 0x41,
        !up ==> spec_scroll_bytes(up, app_cursor)[2] == 0x42,
        spec_scroll_bytes(true, app_cursor).take(2) == spec_scroll_bytes(false, app_cursor).take(2),
        spec_scroll_bytes(up, true)[2] == spec_scroll_bytes(up, false)[2],
{
    assert(spec_scroll_bytes(true, app_cursor).take(2) =~= spec_scroll_bytes(false, app_cursor).take(2));
}

/// How many scrollback lines a wheel movement of `lines` lines scrolls,
/// saturating at the largest count.
pub fn scrollback_wheel_delta(lines: usize) -> (r: usize)
    ensures
        r == (if lines * SCROLLBACK_WHEEL_STEP_MULTIPLIER <= usize::MAX {
            lines * SCROLLBACK_WHEEL_STEP_MULTIPLIER
        } else {
            usize::MAX as int
        }),
{
    if lines <= usize::MAX / SCROLLBACK_WHEEL_STEP_MULTIPLIER {
        lines * SCROLLBACK_WHEEL_STEP_MULTIPLIER
    } else {
        usize::MAX
    }
}

/// The modifiers a synthetic key event asks for.
#[derive(Debug, Clone, Copy, Default, PartialEq, Eq, Structural)]
pub struct SyntheticModifierState {
    pub ctrl: bool,
    pub alt: bool,
    pub shift: bool,
    pub super_key: bool,
    pub hyper: bool,
    pub meta: bool,
    pub caps_lock: bool,
    pub num_lock: bool,
}

} // verus!
