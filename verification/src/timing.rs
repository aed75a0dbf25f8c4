//! Frame timing: deadlines, the synchronized-update tracker and the frame
//! scheduler. Instants are readings of a monotonic clock in nanoseconds and
//! durations are nanosecond counts.

use vstd::prelude::*;
use crate::damage::{spec_has_visible_content, terminal_has_visible_content};
use crate::grid::TerminalState;

verus! {

/// How long a DEC synchronized update may hold the previous frame before the
/// tracker gives up on it (one second).
pub const SYNCHRONIZED_UPDATE_TIMEOUT: u64 = 1_000_000_000;

/// The earlier of an existing deadline and a candidate one.
pub open spec fn spec_earlier_deadline(current: Option<u64>, candidate: u64) -> Option<u64> {
    match current {
        Some(existing) => Some(if existing <= candidate { existing } else { candidate }),
        None => Some(candidate),
    }
}

/// Combines a pending wake-up deadline with a new candidate: a new candidate
/// never delays a deadline that is already scheduled.
pub fn earlier_deadline(current: Option<u64>, candidate: u64) -> (r: Option<u64>)
    ensures
        r == spec_earlier_deadline(current, candidate),
{
    match current {
        Some(existing) => Some(if existing <= candidate { existing } else { candidate }),
        None => Some(candidate),
    }
}

/// `a - b`, or zero when `b` is later than `a`.
pub open spec fn spec_elapsed(a: u64, b: u64) -> u64 {
    if a >= b { (a - b) as u64 } else { 0 }
}

/// Twice a duration, saturating at the largest representable duration.
pub open spec fn spec_double(d: u64) -> u64 {
    if d <= u64::MAX / 2 { (2 * d) as u64 } else { u64::MAX }
}

fn double_duration(d: u64) -> (r: u64)
    ensures
        r == spec_double(d),
{
    if d <= u64::MAX / 2 { 2 * d } else { u64::MAX }
}

/// What the presentation loop should do about a synchronized update.
#[derive(Debug, Clone, Copy, PartialEq, Eq, Structural)]
pub enum SynchronizedUpdateAction {
    /// Keep the previously presented frame while the child is still updating.
    Hold,
    /// The update just ended, so the completed frame should be presented now.
    Release,
    /// No synchronized update is involved; use ordinary frame scheduling.
    Pass,
}

/// Tracker state and action after observing the child's update flag at `now`.
pub open spec fn spec_observe(started: Option<u64>, active: bool, now: u64) -> (
    Option<u64>,
    SynchronizedUpdateAction,
) {
    if active {
        (
            match started {
                Some(start) => Some(start),
                None => Some(now),
            },
            SynchronizedUpdateAction::Hold,
        )
    } else {
        (
            None,
            if started is Some {
                SynchronizedUpdateAction::Release
            } else {
                SynchronizedUpdateAction::Pass
            },
        )
    }
}

/// The instant at which a started update times out.
pub open spec fn spec_gate_deadline(started: Option<u64>) -> Option<u64> {
    match started {
        Some(start) => Some((start + SYNCHRONIZED_UPDATE_TIMEOUT) as u64),
        None => None,
    }
}

/// Tracker state after checking for a timeout at `now`, and whether it expired.
pub open spec fn spec_expire(started: Option<u64>, now: u64) -> (Option<u64>, bool) {
    match spec_gate_deadline(started) {
        Some(deadline) => if now >= deadline {
            (None, true)
        } else {
            (started, false)
        },
        None => (started, false),
    }
}

/// Tracks a DEC synchronized update: when it started, so that a misbehaving
/// child cannot freeze a window forever.
#[derive(Debug, Clone, Copy, PartialEq, Eq, Structural)]
pub struct SynchronizedUpdateGate {
    active_since: Option<u64>,
}

impl View for SynchronizedUpdateGate {
    type V = Option<u64>;

    /// The instant at which the current synchronized update began.
    closed spec fn view(&self) -> Option<u64> {
        self.active_since
    }
}

impl SynchronizedUpdateGate {
    /// The tracker is usable: the deadline of a held frame is representable.
    pub open spec fn wf(&self) -> bool {
        match self@ {
            Some(start) => start <= u64::MAX - SYNCHRONIZED_UPDATE_TIMEOUT,
            None => true,
        }
    }

    /// The tracker in its initial, idle state.
    pub fn new() -> (g: Self)
        ensures
            g@ == None::<u64>,
            g.wf(),
    {
        SynchronizedUpdateGate { active_since: None }
    }

    /// Feeds the child's current synchronized-update flag. While active the
    /// start instant is kept from the first observation; the first inactive
    /// observation after an update releases it.
    pub fn observe(&mut self, active: bool, now: u64) -> (action: SynchronizedUpdateAction)
        requires
            old(self).wf(),
            now <= u64::MAX - SYNCHRONIZED_UPDATE_TIMEOUT,
        ensures
            final(self).wf(),
            (final(self)@, action) == spec_observe(old(self)@, active, now),
    {
        if active {
            if self.active_since.is_none() {
                self.active_since = Some(now);
            }
            return SynchronizedUpdateAction::Hold;
        }
        let was_active = self.active_since.is_some();
        self.active_since = None;
        if was_active {
            SynchronizedUpdateAction::Release
        } else {
            SynchronizedUpdateAction::Pass
        }
    }

    /// When the current update times out, if one is active.
    pub fn deadline(&self) -> (d: Option<u64>)
        requires
            self.wf(),
        ensures
            d == spec_gate_deadline(self@),
    {
        match self.active_since {
            Some(start) => Some(start + SYNCHRONIZED_UPDATE_TIMEOUT),
            None => None,
        }
    }

    /// Abandons an update whose deadline has passed; reports whether it did.
    pub fn expire(&mut self, now: u64) -> (expired: bool)
        requires
            old(self).wf(),
        ensures
            final(self).wf(),
            (final(self)@, expired) == spec_expire(old(self)@, now),
    {
        let expired = match self.deadline() {
            Some(deadline) => now >= deadline,
            None => false,
        };
        if expired {
            self.active_since = None;
        }
        expired
    }
}

impl Default for SynchronizedUpdateGate {
    fn default() -> (g: Self)
        ensures
            g@ == None::<u64>,
    {
        SynchronizedUpdateGate { active_since: None }
    }
}

/// The outcome of one redraw preparation: whether to draw now, or until when
/// to wait for a deferred frame.
#[derive(Debug, Clone, Copy, PartialEq, Eq, Structural)]
pub struct FrameDecision {
    pub request_redraw: bool,
    pub wait_until: Option<u64>,
}

impl FrameDecision {
    /// A deferred frame is pending, so periodic redraw sources must not fire.
    pub fn blocks_periodic_redraw(self) -> (b: bool)
        ensures
            b == self.wait_until is Some,
    {
        self.wait_until.is_some()
    }
}

/// What processing pending terminal input did: whether anything changed, and
/// whether the change is large enough to coalesce with following output.
#[derive(Debug, Default, Clone, Copy, PartialEq, Eq, Structural)]
pub struct RedrawWork {
    pub changed: bool,
    pub heavy: bool,
}

/// The state of a [`FrameScheduler`], field by field.
#[derive(Debug, Clone, Copy, PartialEq, Eq, Structural)]
pub struct SchedulerState {
    /// Terminal input is waiting to be processed.
    pub io_pending: bool,
    /// A redraw is owed.
    pub redraw_pending: bool,
    /// A heavy frame has been deferred until this instant.
    pub redraw_at: Option<u64>,
    /// When the current burst of heavy output began.
    pub burst_started_at: Option<u64>,
    /// The frame interval last handed in.
    pub frame_interval: u64,
}

/// Decides when to redraw: light changes draw at once, heavy bursts of output
/// are coalesced for up to two frame intervals.
#[derive(Debug, Clone, Copy, PartialEq, Eq, Structural)]
pub struct FrameScheduler {
    io_pending: bool,
    redraw_pending: bool,
    redraw_at: Option<u64>,
    burst_started_at: Option<u64>,
    frame_interval: u64,
}

impl View for FrameScheduler {
    type V = SchedulerState;

    closed spec fn view(&self) -> SchedulerState {
        SchedulerState {
            io_pending: self.io_pending,
            redraw_pending: self.redraw_pending,
            redraw_at: self.redraw_at,
            burst_started_at: self.burst_started_at,
            frame_interval: self.frame_interval,
        }
    }
}

/// The idle scheduler: nothing pending, no deferred frame, zero interval.
pub open spec fn idle_scheduler() -> SchedulerState {
    SchedulerState {
        io_pending: false,
        redraw_pending: false,
        redraw_at: None,
        burst_started_at: None,
        frame_interval: 0,
    }
}

/// A heavy change that arrives within two frame intervals of the start of
/// its burst (`burst_start`) is deferred.
pub open spec fn defers_heavy(burst_start: u64, now: u64, frame_interval: u64) -> bool {
    spec_elapsed(now, burst_start) < spec_double(frame_interval)
}

/// Reporting `work` at `now` defers the frame by one interval: a heavy
/// change early in its burst.
pub open spec fn io_processed_defers(s: SchedulerState, now: u64, frame_interval: u64, work: RedrawWork) -> bool {
    let burst = match s.burst_started_at {
        Some(b) => b,
        None => now,
    };
    work.changed && work.heavy && defers_heavy(burst, now, frame_interval)
}

/// Scheduler state and result after processed input was reported.
pub open spec fn spec_io_processed(
    s: SchedulerState,
    now: u64,
    frame_interval: u64,
    work: RedrawWork,
) -> (SchedulerState, bool) {
    let s1 = SchedulerState { io_pending: false, frame_interval, ..s };
    if !work.changed {
        (s1, false)
    } else {
        let burst = match s.burst_started_at {
            Some(b) => b,
            None => now,
        };
        if work.heavy && defers_heavy(burst, now, frame_interval) {
            (
                SchedulerState {
                    redraw_pending: true,
                    redraw_at: Some((now + frame_interval) as u64),
                    burst_started_at: Some(burst),
                    ..s1
                },
                false,
            )
        } else {
            (
                SchedulerState {
                    redraw_pending: true,
                    redraw_at: None,
                    burst_started_at: None,
                    ..s1
                },
                true,
            )
        }
    }
}

/// A deferred frame is still in the future at `now`.
pub open spec fn waiting_for_deadline(s: SchedulerState, now: u64) -> bool {
    match s.redraw_at {
        Some(deadline) => now < deadline,
        None => false,
    }
}

/// Scheduler state and decision of `prepare_redraw` after input processing
/// (if any) reported `work`.
pub open spec fn spec_prepare(s: SchedulerState, now: u64, work: RedrawWork) -> (
    SchedulerState,
    FrameDecision,
) {
    if waiting_for_deadline(s, now) {
        (s, FrameDecision { request_redraw: false, wait_until: s.redraw_at })
    } else {
        let burst = match s.burst_started_at {
            Some(b) => b,
            None => now,
        };
        if s.io_pending && work.changed && work.heavy && defers_heavy(
            burst,
            now,
            s.frame_interval,
        ) {
            let deadline = (now + s.frame_interval) as u64;
            (
                SchedulerState {
                    io_pending: false,
                    redraw_pending: true,
                    redraw_at: Some(deadline),
                    ..s
                },
                FrameDecision { request_redraw: false, wait_until: Some(deadline) },
            )
        } else {
            let pending = s.redraw_pending || (s.io_pending && work.changed);
            (
                SchedulerState {
                    io_pending: false,
                    redraw_pending: false,
                    redraw_at: None,
                    burst_started_at: None,
                    frame_interval: s.frame_interval,
                },
                FrameDecision { request_redraw: pending, wait_until: None },
            )
        }
    }
}

impl Default for FrameScheduler {
    fn default() -> (s: Self)
        ensures
            s@ == idle_scheduler(),
    {
        FrameScheduler {
            io_pending: false,
            redraw_pending: false,
            redraw_at: None,
            burst_started_at: None,
            frame_interval: 0,
        }
    }
}

impl FrameScheduler {
    /// Terminal input became readable: remember it and open a burst.
    pub fn mark_io_ready(&mut self, now: u64, frame_interval: u64)
        ensures
            final(self)@ == (SchedulerState {
                io_pending: true,
                frame_interval,
                burst_started_at: match old(self)@.burst_started_at {
                    Some(b) => Some(b),
                    None => Some(now),
                },
                ..old(self)@
            }),
    {
        self.frame_interval = frame_interval;
        self.io_pending = true;
        if self.burst_started_at.is_none() {
            self.burst_started_at = Some(now);
        }
    }

    /// Input was processed outside `prepare_redraw`; returns whether a
    /// redraw should be requested right away.
    pub fn mark_io_processed(&mut self, now: u64, frame_interval: u64, work: RedrawWork) -> (r:
        bool)
        requires
            io_processed_defers(old(self)@, now, frame_interval, work) ==> now + frame_interval
                <= u64::MAX,
        ensures
            (final(self)@, r) == spec_io_processed(old(self)@, now, frame_interval, work),
    {
        self.frame_interval = frame_interval;
        self.io_pending = false;

        if !work.changed {
            return false;
        }

        if work.heavy {
            let burst_started_at = match self.burst_started_at {
                Some(b) => b,
                None => {
                    self.burst_started_at = Some(now);
                    now
                },
            };
            let burst_age = now.saturating_sub(burst_started_at);
            if burst_age < double_duration(self.frame_interval) {
                self.redraw_pending = true;
                self.redraw_at = Some(now + self.frame_interval);
                return false;
            }
        }

        self.redraw_at = None;
        self.redraw_pending = true;
        self.burst_started_at = None;
        true
    }

    /// A light change arrived at `now`: processed as a changed, light update
    /// with the current frame interval.
    pub fn mark_io_ready_light(&mut self, now: u64) -> (r: bool)
        ensures
            (final(self)@, r) == spec_io_processed(
                old(self)@,
                now,
                old(self)@.frame_interval,
                RedrawWork { changed: true, heavy: false },
            ),
    {
        let interval = self.frame_interval;
        self.mark_io_processed(now, interval, RedrawWork { changed: true, heavy: false })
    }

    /// Something other than terminal input needs a redraw.
    pub fn mark_redraw_needed(&mut self)
        ensures
            final(self)@ == (SchedulerState {
                redraw_at: None,
                redraw_pending: true,
                ..old(self)@
            }),
    {
        self.redraw_at = None;
        self.redraw_pending = true;
    }

    /// Whether `prepare_redraw` at `now` will process pending input.
    pub fn needs_io_processing(&self, now: u64) -> (b: bool)
        ensures
            b == (!waiting_for_deadline(self@, now) && self@.io_pending),
    {
        let waiting = match self.redraw_at {
            Some(deadline) => now < deadline,
            None => false,
        };
        !waiting && self.io_pending
    }

    /// Decides whether to draw at `now`. Pending input is processed through
    /// `process_io` exactly when `needs_io_processing(now)` holds; a heavy
    /// result early in a burst defers the frame by one interval.
    pub fn prepare_redraw<F: FnOnce() -> RedrawWork>(&mut self, now: u64, process_io: F) -> (r:
        FrameDecision)
        requires
            !waiting_for_deadline(old(self)@, now) && old(self)@.io_pending ==> now + old(
                self,
            )@.frame_interval <= u64::MAX && call_requires(process_io, ()),
        ensures
            !waiting_for_deadline(old(self)@, now) && old(self)@.io_pending ==> exists|
                work: RedrawWork,
            |
                call_ensures(process_io, (), work) && (final(self)@, r) == spec_prepare(
                    old(self)@,
                    now,
                    work,
                ),
            !(!waiting_for_deadline(old(self)@, now) && old(self)@.io_pending) ==> (
            final(self)@,
            r,
            ) == spec_prepare(old(self)@, now, RedrawWork { changed: false, heavy: false }),
    {
        let ghost pre = self@;
        if let Some(deadline) = self.redraw_at {
            if now < deadline {
                return FrameDecision { request_redraw: false, wait_until: Some(deadline) };
            }
        }
        if self.io_pending {
            let work = process_io();
            if work.changed {
                self.redraw_pending = true;
            }
            if work.changed && work.heavy {
                let burst_started_at = match self.burst_started_at {
                    Some(b) => b,
                    None => now,
                };
                let burst_age = now.saturating_sub(burst_started_at);
                if burst_age < double_duration(self.frame_interval) {
                    let deadline = now + self.frame_interval;
                    self.io_pending = false;
                    self.redraw_at = Some(deadline);
                    let r = FrameDecision { request_redraw: false, wait_until: Some(deadline) };
                    assert(call_ensures(process_io, (), work) && (self@, r) == spec_prepare(
                        pre,
                        now,
                        work,
                    ));
                    return r;
                }
            }
            self.io_pending = false;
            self.redraw_at = None;
            self.burst_started_at = None;
            let request = self.redraw_pending;
            self.redraw_pending = false;
            let r = FrameDecision { request_redraw: request, wait_until: None };
            assert(call_ensures(process_io, (), work) && (self@, r) == spec_prepare(pre, now, work));
            return r;
        }
        self.redraw_at = None;
        self.burst_started_at = None;
        let request = self.redraw_pending;
        self.redraw_pending = false;
        FrameDecision { request_redraw: request, wait_until: None }
    }
}

/// Startup milestones of a window, each recorded once (the first time it
/// happens), plus the bytes read from the child before output became visible.
#[derive(Debug, Clone, Copy, PartialEq, Eq, Structural)]
pub struct StartupTiming {
    pub started_at: u64,
    pub pty_spawned_at: Option<u64>,
    pub first_pty_event_at: Option<u64>,
    pub first_pty_read_at: Option<u64>,
    pub first_visible_output_at: Option<u64>,
    pub first_present_at: Option<u64>,
    pub first_present_after_visible_at: Option<u64>,
    pub bytes_read: usize,
    pub bytes_before_visible: Option<usize>,
    pub logged: bool,
}

/// The startup milestones as nanoseconds since the window was opened (or
/// between milestones); durations that would be negative are zero.
#[derive(Debug, Clone, Copy, PartialEq, Eq, Structural)]
pub struct StartupTimingSnapshot {
    pub open_to_pty_spawn_ns: Option<u64>,
    pub open_to_first_pty_event_ns: Option<u64>,
    pub open_to_first_pty_read_ns: Option<u64>,
    pub open_to_first_visible_output_ns: Option<u64>,
    pub bytes_before_visible: Option<usize>,
    pub open_to_first_present_ns: Option<u64>,
    pub open_to_first_visible_present_ns: Option<u64>,
    pub first_read_to_visible_present_ns: Option<u64>,
    pub first_visible_to_present_ns: Option<u64>,
}

/// An optional milestone, or the instant itself when none was recorded yet.
pub open spec fn first_of(recorded: Option<u64>, at: u64) -> Option<u64> {
    match recorded {
        Some(t) => Some(t),
        None => Some(at),
    }
}

/// The time from `from` to an optional milestone.
pub open spec fn spec_since(from: u64, at: Option<u64>) -> Option<u64> {
    match at {
        Some(t) => Some(spec_elapsed(t, from)),
        None => None,
    }
}

/// The time between two optional milestones, when both happened.
pub open spec fn spec_between(from: Option<u64>, to: Option<u64>) -> Option<u64> {
    match (from, to) {
        (Some(a), Some(b)) => Some(spec_elapsed(b, a)),
        _ => None,
    }
}

/// Startup is reported once output was visible and presented.
pub open spec fn startup_ready(t: StartupTiming) -> bool {
    t.first_present_at is Some && t.first_visible_output_at is Some
        && t.first_present_after_visible_at is Some
}

/// The record after the snapshot was asked for: it counts as reported once
/// it was ready.
pub open spec fn after_take(t: StartupTiming) -> StartupTiming {
    StartupTiming { logged: t.logged || startup_ready(t), ..t }
}

/// Whether asking for the snapshot hands it out.
pub open spec fn take_hands_out(t: StartupTiming) -> bool {
    !t.logged && startup_ready(t)
}

/// The snapshot of a ready timing record.
pub open spec fn spec_snapshot(t: StartupTiming) -> StartupTimingSnapshot {
    StartupTimingSnapshot {
        open_to_pty_spawn_ns: spec_since(t.started_at, t.pty_spawned_at),
        open_to_first_pty_event_ns: spec_since(t.started_at, t.first_pty_event_at),
        open_to_first_pty_read_ns: spec_since(t.started_at, t.first_pty_read_at),
        open_to_first_visible_output_ns: spec_since(t.started_at, t.first_visible_output_at),
        bytes_before_visible: t.bytes_before_visible,
        open_to_first_present_ns: spec_since(t.started_at, t.first_present_at),
        open_to_first_visible_present_ns: spec_since(t.started_at, t.first_present_after_visible_at),
        first_read_to_visible_present_ns: spec_between(t.first_pty_read_at, t.first_present_after_visible_at),
        first_visible_to_present_ns: spec_between(t.first_visible_output_at, t.first_present_after_visible_at),
    }
}

fn since(from: u64, at: Option<u64>) -> (r: Option<u64>)
    ensures
        r == spec_since(from, at),
{
    match at {
        Some(t) => Some(t.saturating_sub(from)),
        None => None,
    }
}

fn between(from: Option<u64>, to: Option<u64>) -> (r: Option<u64>)
    ensures
        r == spec_between(from, to),
{
    match (from, to) {
        (Some(a), Some(b)) => Some(b.saturating_sub(a)),
        _ => None,
    }
}

impl StartupTiming {
    /// A record for a window opened at `started_at`, with no milestone yet.
    pub fn new(started_at: u64) -> (t: Self)
        ensures
            t == (StartupTiming {
                started_at,
                pty_spawned_at: None,
                first_pty_event_at: None,
                first_pty_read_at: None,
                first_visible_output_at: None,
                first_present_at: None,
                first_present_after_visible_at: None,
                bytes_read: 0,
                bytes_before_visible: None,
                logged: false,
            }),
    {
        StartupTiming {
            started_at,
            pty_spawned_at: None,
            first_pty_event_at: None,
            first_pty_read_at: None,
            first_visible_output_at: None,
            first_present_at: None,
            first_present_after_visible_at: None,
            bytes_read: 0,
            bytes_before_visible: None,
            logged: false,
        }
    }

    /// The child process was spawned at `at`.
    pub fn mark_pty_spawned(&mut self, at: u64)
        ensures
            *final(self) == (StartupTiming {
                pty_spawned_at: first_of(old(self).pty_spawned_at, at),
                ..*old(self)
            }),
    {
        if self.pty_spawned_at.is_none() {
            self.pty_spawned_at = Some(at);
        }
    }

    /// The child's terminal became readable at `at`.
    pub fn mark_pty_event(&mut self, at: u64)
        ensures
            *final(self) == (StartupTiming {
                first_pty_event_at: first_of(old(self).first_pty_event_at, at),
                ..*old(self)
            }),
    {
        if self.first_pty_event_at.is_none() {
            self.first_pty_event_at = Some(at);
        }
    }

    /// `bytes` were read from the child at `at`; an empty read is no event.
    pub fn mark_pty_read(&mut self, at: u64, bytes: usize)
        requires
            old(self).bytes_read + bytes <= usize::MAX,
        ensures
            bytes == 0 ==> *final(self) == *old(self),
            bytes != 0 ==> *final(self) == (StartupTiming {
                bytes_read: (old(self).bytes_read + bytes) as usize,
                first_pty_read_at: first_of(old(self).first_pty_read_at, at),
                ..*old(self)
            }),
    {
        if bytes == 0 {
            return;
        }
        self.bytes_read = self.bytes_read + bytes;
        if self.first_pty_read_at.is_none() {
            self.first_pty_read_at = Some(at);
        }
    }

    /// Records the first instant at which the terminal shows anything,
    /// together with how many bytes had been read by then.
    pub fn maybe_mark_visible(&mut self, at: u64, terminal: &TerminalState)
        requires
            terminal.grid.wf(),
        ensures
            if old(self).first_visible_output_at is None && spec_has_visible_content(terminal.grid) {
                *final(self) == (StartupTiming {
                    first_visible_output_at: Some(at),
                    bytes_before_visible: Some(old(self).bytes_read),
                    ..*old(self)
                })
            } else {
                *final(self) == *old(self)
            },
    {
        if self.first_visible_output_at.is_some() || !terminal_has_visible_content(terminal) {
            return;
        }
        self.first_visible_output_at = Some(at);
        self.bytes_before_visible = Some(self.bytes_read);
    }

    /// A frame was presented at `at`.
    pub fn mark_present(&mut self, at: u64)
        ensures
            *final(self) == (StartupTiming {
                first_present_at: first_of(old(self).first_present_at, at),
                first_present_after_visible_at: if old(self).first_visible_output_at is Some {
                    first_of(old(self).first_present_after_visible_at, at)
                } else {
                    old(self).first_present_after_visible_at
                },
                ..*old(self)
            }),
    {
        if self.first_present_at.is_none() {
            self.first_present_at = Some(at);
        }
        if self.first_visible_output_at.is_some() && self.first_present_after_visible_at.is_none() {
            self.first_present_after_visible_at = Some(at);
        }
    }

    /// The milestones, once visible output has been presented.
    pub fn snapshot_if_ready(&self) -> (r: Option<StartupTimingSnapshot>)
        ensures
            r == (if startup_ready(*self) {
                Some(spec_snapshot(*self))
            } else {
                None
            }),
    {
        if self.first_present_at.is_none() || self.first_visible_output_at.is_none()
            || self.first_present_after_visible_at.is_none() {
            return None;
        }
        Some(StartupTimingSnapshot {
            open_to_pty_spawn_ns: since(self.started_at, self.pty_spawned_at),
            open_to_first_pty_event_ns: since(self.started_at, self.first_pty_event_at),
            open_to_first_pty_read_ns: since(self.started_at, self.first_pty_read_at),
            open_to_first_visible_output_ns: since(self.started_at, self.first_visible_output_at),
            bytes_before_visible: self.bytes_before_visible,
            open_to_first_present_ns: since(self.started_at, self.first_present_at),
            open_to_first_visible_present_ns: since(
                self.started_at,
                self.first_present_after_visible_at,
            ),
            first_read_to_visible_present_ns: between(
                self.first_pty_read_at,
                self.first_present_after_visible_at,
            ),
            first_visible_to_present_ns: between(
                self.first_visible_output_at,
                self.first_present_after_visible_at,
            ),
        })
    }

    /// Hands out the snapshot the first time it is ready, and never again.
    pub fn take_snapshot_once(&mut self) -> (r: Option<StartupTimingSnapshot>)
        ensures
            r == (if take_hands_out(*old(self)) {
                Some(spec_snapshot(*old(self)))
            } else {
                None
            }),
            *final(self) == after_take(*old(self)),
    {
        if self.logged {
            return None;
        }
        let snapshot = self.snapshot_if_ready();
        if snapshot.is_some() {
            self.logged = true;
        }
        snapshot
    }
}

/// A new candidate never delays an existing deadline: the combined deadline
/// is no later than either input, and is one of them.
pub proof fn law_earlier_deadline_never_delays(current: Option<u64>, candidate: u64)
    ensures
        spec_earlier_deadline(current, candidate) matches Some(d) && d <= candidate && (
        current matches Some(c) ==> d <= c) && (d == candidate || current == Some(d)),
{
}

/// A synchronized update holds the frame while active and releases it
/// exactly once: whatever came before, an active observation answers `Hold`,
/// the next inactive one `Release`, and a further inactive one `Pass`.
pub proof fn law_gate_holds_then_releases_once(started: Option<u64>, t1: u64, t2: u64, t3: u64)
    ensures
        ({
            let (s1, a1) = spec_observe(started, true, t1);
            let (s2, a2) = spec_observe(s1, false, t2);
            let (s3, a3) = spec_observe(s2, false, t3);
            a1 == SynchronizedUpdateAction::Hold && a2 == SynchronizedUpdateAction::Release && a3
                == SynchronizedUpdateAction::Pass && s3 == None::<u64>
        }),
{
}

/// Continued activity does not extend the timeout: the deadline is fixed by
/// the first active observation of an update.
pub proof fn law_gate_activity_does_not_extend_timeout(started: Option<u64>, t1: u64, t2: u64)
    ensures
        ({
            let (s1, _) = spec_observe(started, true, t1);
            let (s2, _) = spec_observe(s1, true, t2);
            spec_gate_deadline(s2) == spec_gate_deadline(s1) && (started is None ==> s1 == Some(
                t1,
            ))
        }),
{
}

/// A stuck child is given up on exactly at the deadline: before it nothing
/// changes; at or after it the tracker is cleared and no deadline remains.
pub proof fn law_gate_expires_at_deadline(started: Option<u64>, now: u64)
    requires
        started is Some,
    ensures
        ({
            let d = spec_gate_deadline(started)->0;
            let (s1, expired) = spec_expire(started, now);
            (expired <==> now >= d) && (expired ==> spec_gate_deadline(s1) is None) && (!expired
                ==> s1 == started)
        }),
{
}

/// After a timeout the tracker starts afresh: an inactive observation passes,
/// and a fresh hold gets a full timeout from its own start.
pub proof fn law_gate_reenters_after_timeout(started: Option<u64>, now: u64, t2: u64, t3: u64)
    requires
        spec_expire(started, now).1,
    ensures
        ({
            let (s1, _) = spec_expire(started, now);
            let (s2, a2) = spec_observe(s1, false, t2);
            let (s3, a3) = spec_observe(s2, true, t3);
            a2 == SynchronizedUpdateAction::Pass && a3 == SynchronizedUpdateAction::Hold
                && spec_gate_deadline(s3) == Some((t3 + SYNCHRONIZED_UPDATE_TIMEOUT) as u64)
        }),
{
}

/// A frame is never both drawn and deferred: a decision with a deadline does
/// not request a redraw.
pub proof fn law_decision_draws_or_waits(s: SchedulerState, now: u64, work: RedrawWork)
    ensures
        spec_prepare(s, now, work).1.wait_until is Some ==> !spec_prepare(
            s,
            now,
            work,
        ).1.request_redraw,
{
}

/// Light changes redraw immediately: after input became ready, a light
/// change found while preparing a frame that is not waiting on a deferred
/// deadline is drawn at once, with no wait.
pub proof fn law_light_change_redraws_immediately(
    s: SchedulerState,
    ready_at: u64,
    frame_interval: u64,
    now: u64,
)
    requires
        !waiting_for_deadline(s, now),
    ensures
        ({
            let s1 = SchedulerState {
                io_pending: true,
                frame_interval,
                burst_started_at: match s.burst_started_at {
                    Some(b) => Some(b),
                    None => Some(ready_at),
                },
                ..s
            };
            let (s2, d) = spec_prepare(s1, now, RedrawWork { changed: true, heavy: false });
            d.request_redraw && d.wait_until is None && !s2.io_pending && !s2.redraw_pending
        }),
{
}

/// Heavy output is coalesced for at most two frame intervals: a deferred
/// frame waits exactly one interval, and only while the burst is younger than
/// two intervals; once it is older the frame is drawn.
pub proof fn law_heavy_burst_deferral_is_bounded(s: SchedulerState, now: u64, work: RedrawWork)
    requires
        !waiting_for_deadline(s, now),
    ensures
        ({
            let burst = match s.burst_started_at {
                Some(b) => b,
                None => now,
            };
            let (_, d) = spec_prepare(s, now, work);
            (d.wait_until is Some ==> d.wait_until == Some((now + s.frame_interval) as u64)
                && spec_elapsed(now, burst) < spec_double(s.frame_interval)) && (spec_elapsed(
                now,
                burst,
            ) >= spec_double(s.frame_interval) ==> d.wait_until is None)
        }),
{
}

/// A heavy change reported at the start of a burst defers the frame, and the
/// deferral blocks periodic redraw sources until its deadline.
pub proof fn law_deferred_heavy_frame_blocks_periodic_redraw(
    s: SchedulerState,
    now: u64,
    frame_interval: u64,
)
    requires
        s.burst_started_at is None,
        frame_interval > 0,
        now + frame_interval <= u64::MAX,
    ensures
        ({
            let (s1, drawn) = spec_io_processed(
                s,
                now,
                frame_interval,
                RedrawWork { changed: true, heavy: true },
            );
            let (_, d) = spec_prepare(s1, now, RedrawWork { changed: false, heavy: false });
            !drawn && !d.request_redraw && d.wait_until == Some((now + frame_interval) as u64)
        }),
{
}

/// Startup is reported once: after the snapshot was handed out, asking
/// again hands out nothing, however the milestones change afterwards.
pub proof fn law_startup_reported_once(t: StartupTiming, later: StartupTiming)
    requires
        take_hands_out(t),
        later.logged == after_take(t).logged,
    ensures
        !take_hands_out(later),
{
}

/// A milestone keeps the instant it was first recorded at.
pub proof fn law_milestone_keeps_first(recorded: Option<u64>, first: u64, second: u64)
    ensures
        first_of(first_of(recorded, first), second) == first_of(recorded, first),
{
}

/// A synchronized update holds frames for at most one second: started at
/// `t`, it is still held just before `t` plus one second of nanoseconds and
/// is given up on exactly then.
pub proof fn law_synchronized_update_lasts_one_second(t: u64)
    requires
        t + 1_000_000_000 <= u64::MAX,
    ensures
        spec_gate_deadline(spec_observe(None, true, t).0) == Some((t + 1_000_000_000) as u64),
        spec_expire(Some(t), (t + 999_999_999) as u64) == (Some(t), false),
        spec_expire(Some(t), (t + 1_000_000_000) as u64) == (None::<u64>, true),
{
}
} // verus!
