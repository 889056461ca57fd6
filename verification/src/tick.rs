//! Decisions the panel window takes on its timers and mouse and tray
//! events: what a frame of the animation clock does, when a height
//! transition starts and where an anchored frame goes, which reset drives
//! the minute tick, whether the cursor is at the tray icon, what a tray
//! callback says, and what releasing the left button means. The window
//! procedure performs the returned actions.

use vstd::prelude::*;

use crate::panel::{keeps_input, Hit, Rect};

verus! {

// ── Animation clock ────────────────────────────────────────────────

/// The height transition running at a frame.
#[derive(Debug, Clone, Copy, PartialEq, Eq)]
pub struct HeightFrame {
    /// The transition has reached its end.
    pub finished: bool,
    /// The window was resized this frame (it is dragged, or anchored to
    /// the tray).
    pub resized: bool,
    /// The laid-out rows lag behind the chosen team and interval settings.
    pub layout_stale: bool,
}

/// What the animation clock sees at one tick. `appear` and `footer` hold
/// whether that tween has finished, when it runs.
#[derive(Debug, Clone, Copy, PartialEq, Eq)]
pub struct TickInput {
    pub appear: Option<bool>,
    pub footer: Option<bool>,
    pub spinning: bool,
    pub height: Option<HeightFrame>,
    /// The caret blinks (a field is focused and the window has focus): its
    /// phase, visible or not, and milliseconds to the next flip.
    pub caret: Option<(bool, u32)>,
    /// Whether the caret as last drawn was visible.
    pub blink_drawn: bool,
    /// The clock's current period in milliseconds, 0 when stopped.
    pub period: u32,
}

/// What becomes of the animation clock's timer.
#[derive(Debug, Clone, Copy, PartialEq, Eq)]
pub enum TimerChange {
    /// Stop the timer.
    Stop,
    /// Restart it with this period in milliseconds.
    Restart(u32),
    /// Leave it running as it is.
    Keep,
}

/// The actions of one tick of the animation clock.
#[derive(Debug, Clone, Copy, PartialEq, Eq)]
pub struct TickPlan {
    pub drop_appear: bool,
    pub drop_footer: bool,
    pub drop_height: bool,
    /// Bring the layout up to the chosen settings (the height transition
    /// ended with stale rows).
    pub relayout: bool,
    pub blink_drawn: bool,
    pub repaint: bool,
    pub timer: TimerChange,
    /// The clock's period after the tick.
    pub period: u32,
}

/// Whether an optional tween is still running.
pub open spec fn running(t: Option<bool>) -> bool {
    t == Some(false)
}

/// Whether any animation other than the caret keeps the clock going.
pub open spec fn animating(i: TickInput) -> bool {
    running(i.appear) || running(i.footer) || i.spinning || i.height is Some
}

/// The frame period the clock wants: 33 ms while only the footer slides,
/// 16 ms for other animations, else just until the caret's next flip
/// (at least 1 ms).
pub open spec fn wanted_period(i: TickInput) -> u32 {
    if running(i.footer) && i.appear is None && !i.spinning && i.height is None {
        33
    } else if animating(i) {
        16
    } else {
        match i.caret {
            Some((_, wake)) => if wake >= 1 { wake } else { 1 },
            None => 16,
        }
    }
}

/// The plan of one tick. Finished tweens are dropped; any tween present
/// (finished or not), a spin, a resize of the height transition or a
/// caret flip repaints; the clock stops when nothing animates and no caret
/// blinks, and is restarted only when its period changes.
pub open spec fn plan_of(i: TickInput) -> TickPlan {
    let flip = match i.caret {
        Some((on, _)) => on != i.blink_drawn,
        None => false,
    };
    let stop = !animating(i) && i.caret is None;
    TickPlan {
        drop_appear: i.appear == Some(true),
        drop_footer: i.footer == Some(true),
        drop_height: match i.height {
            Some(h) => h.finished,
            None => false,
        },
        relayout: match i.height {
            Some(h) => h.finished && h.layout_stale,
            None => false,
        },
        blink_drawn: match i.caret {
            Some((on, _)) => on,
            None => i.blink_drawn,
        },
        repaint: i.appear is Some || i.footer is Some || i.spinning || flip || match i.height {
            Some(h) => h.resized,
            None => false,
        },
        timer: if stop {
            TimerChange::Stop
        } else if i.period != wanted_period(i) {
            TimerChange::Restart(wanted_period(i))
        } else {
            TimerChange::Keep
        },
        period: if stop {
            0
        } else {
            wanted_period(i)
        },
    }
}

/// Decides one tick of the panel's animation clock.
pub fn tick_plan(i: TickInput) -> (p: TickPlan)
    ensures
        p == plan_of(i),
{
    let mut done = true;
    let mut repaint = false;
    let mut drop_appear = false;
    let mut drop_footer = false;
    let appear_active = i.appear.is_some();
    match i.appear {
        Some(finished) => {
            repaint = true;
            if finished {
                drop_appear = true;
            } else {
                done = false;
            }
        },
        None => {},
    }
    let footer_active = match i.footer {
        Some(finished) => !finished,
        None => false,
    };
    match i.footer {
        Some(finished) => {
            repaint = true;
            if finished {
                drop_footer = true;
            } else {
                done = false;
            }
        },
        None => {},
    }
    if i.spinning {
        done = false;
        repaint = true;
    }
    let mut footer_only = footer_active && !appear_active && !i.spinning;
    let mut drop_height = false;
    let mut relayout = false;
    match i.height {
        Some(h) => {
            done = false;
            footer_only = false;
            if h.resized {
                repaint = true;
            }
            if h.finished {
                drop_height = true;
                relayout = h.layout_stale;
            }
        },
        None => {},
    }
    let anim_active = !done;
    let mut blink_drawn = i.blink_drawn;
    let mut caret_wake: Option<u32> = None;
    match i.caret {
        Some((on, wake_in)) => {
            done = false;
            if on != blink_drawn {
                blink_drawn = on;
                repaint = true;
            }
            caret_wake = Some(wake_in);
        },
        None => {},
    }
    let (timer, period) = if done {
        (TimerChange::Stop, 0u32)
    } else {
        let want: u32 = if footer_only {
            33
        } else if anim_active {
            16
        } else {
            let w: u32 = match caret_wake {
                Some(w) => w,
                None => 16,
            };
            if w >= 1 {
                w
            } else {
                1
            }
        };
        if i.period != want {
            (TimerChange::Restart(want), want)
        } else {
            (TimerChange::Keep, want)
        }
    };
    TickPlan {
        drop_appear,
        drop_footer,
        drop_height,
        relayout,
        blink_drawn,
        repaint,
        timer,
        period,
    }
}

/// Restarting the timer resets its time base, so the clock restarts only
/// on a change of period: a tick seeing the same animations again, with
/// the period the previous tick left, never restarts it.
pub proof fn law_steady_clock_keeps_timer(i: TickInput)
    ensures
        !(plan_of(TickInput { period: plan_of(i).period, ..i }).timer is Restart),
{
}

// ── Height transition ──────────────────────────────────────────────

/// A shrinking height transition starts only when no drag is in progress,
/// the target is lower than the window now, the window is visible and the
/// system allows animations.
pub fn shrink_starts(dragging: bool, target_h: i32, current_h: i32, visible: bool, allowed: bool) -> (r: bool)
    ensures
        r == (!dragging && target_h < current_h && visible && allowed),
{
    !dragging && target_h < current_h && visible && allowed
}

/// Top edge of a tray-anchored panel `h` px high during a height
/// transition: `gap` above the anchor, but at least 8 px below the work
/// area's top.
pub open spec fn anchored_top(anchor_top: i32, h: i32, gap: i32, work_top: i32) -> int {
    let y = anchor_top - h - gap;
    if y > work_top + 8 {
        y
    } else {
        work_top + 8
    }
}

/// The top edge of an anchored panel for one frame of the height
/// transition.
pub fn frame_top(anchor_top: i32, h: i32, gap: i32, work_top: i32) -> (y: i32)
    requires
        i32::MIN <= anchor_top - h <= i32::MAX,
        i32::MIN <= anchor_top - h - gap <= i32::MAX,
        work_top + 8 <= i32::MAX,
    ensures
        y == anchored_top(anchor_top, h, gap, work_top),
{
    let y = anchor_top - h - gap;
    let lo = work_top + 8;
    if y > lo {
        y
    } else {
        lo
    }
}

// ── Minute tick ────────────────────────────────────────────────────

/// The earliest of `times` that lies after `now`, if any.
pub open spec fn is_soonest_after(times: Seq<i64>, now: i64, t: i64) -> bool {
    &&& t > now
    &&& times.contains(t)
    &&& forall|j: int| 0 <= j < times.len() && times[j] > now ==> t <= times[j]
}

/// The soonest of the upcoming reset times (milliseconds), ignoring those
/// already past; `None` when none lies ahead.
pub fn soonest_after(times: &[i64], now: i64) -> (r: Option<i64>)
    ensures
        r is None <==> forall|j: int| 0 <= j < times@.len() ==> times@[j] <= now,
        r matches Some(t) ==> is_soonest_after(times@, now, t),
{
    let mut best: Option<i64> = None;
    let mut i: usize = 0;
    while i < times.len()
        invariant
            i <= times@.len(),
            best is None <==> forall|j: int| 0 <= j < i ==> times@[j] <= now,
            best matches Some(t) ==> {
                &&& t > now
                &&& exists|k: int| 0 <= k < i && times@[k] == t
                &&& forall|j: int| 0 <= j < i && times@[j] > now ==> t <= times@[j]
            },
        decreases times@.len() - i,
    {
        let t = times[i];
        if t > now {
            best = match best {
                Some(b) => if t < b {
                    Some(t)
                } else {
                    Some(b)
                },
                None => Some(t),
            };
        }
        i = i + 1;
    }
    proof {
        if let Some(t) = best {
            let k = choose|k: int| 0 <= k < times@.len() && times@[k] == t;
            assert(times@.contains(t)) by {
                assert(times@[k] == t);
            }
        }
    }
    best
}

// ── Tray icon ──────────────────────────────────────────────────────

/// Whether the cursor at (`x`, `y`) lies within 24 px of the tray anchor.
pub open spec fn near(anchor: Option<Rect>, x: i32, y: i32) -> bool {
    match anchor {
        Some(a) => a.left - 24 <= x <= a.right + 24 && a.top - 24 <= y <= a.bottom + 24,
        None => false,
    }
}

/// Whether the cursor is over the tray icon, judged from the anchor
/// rectangle grown by 24 px on each side (no cross-process query).
pub fn near_anchor(anchor: Option<Rect>, x: i32, y: i32) -> (r: bool)
    ensures
        r == near(anchor, x, y),
{
    match anchor {
        Some(a) => {
            let (x, y) = (x as i64, y as i64);
            a.left as i64 - 24 <= x && x <= a.right as i64 + 24 && a.top as i64 - 24 <= y && y
                <= a.bottom as i64 + 24
        },
        None => false,
    }
}

/// The notification code of a tray-icon callback: the low 16 bits of its
/// `lParam`.
pub fn parse_callback(lparam: isize) -> (code: u32)
    ensures
        code == (lparam as u16) as u32,
{
    let code = (lparam as u32) & 0xFFFF;
    assert(code == (lparam as u16) as u32) by (bit_vector)
        requires
            code == (lparam as u32) & 0xFFFF,
    ;
    code
}

// ── Left button release ────────────────────────────────────────────

/// How far the cursor travelled from where the button went down, in the
/// taxicab metric.
pub open spec fn travel(press: (i32, i32), cursor: (i32, i32)) -> int {
    let dx = cursor.0 - press.0;
    let dy = cursor.1 - press.1;
    (if dx < 0 { -dx } else { dx }) + (if dy < 0 { -dy } else { dy })
}

/// Travel is a distance: never negative, zero only where the button went
/// down, the same in either direction, and along one axis it is how far
/// the cursor moved, up or down alike.
pub proof fn law_travel_is_a_distance(p: (i32, i32), c: (i32, i32))
    ensures
        travel(p, c) >= 0,
        travel(p, c) == 0 <==> p == c,
        travel(p, c) == travel(c, p),
        c.0 == p.0 ==> travel(p, c) == if c.1 >= p.1 { c.1 - p.1 } else { p.1 - c.1 },
        c.1 == p.1 ==> travel(p, c) == if c.0 >= p.0 { c.0 - p.0 } else { p.0 - c.0 },
{
}

/// A press and release more than 8 px apart make a drag, not a click.
pub fn moved_far(press: (i32, i32), cursor: (i32, i32)) -> (r: bool)
    ensures
        r == (travel(press, cursor) > 8),
{
    let dx = cursor.0 as i64 - press.0 as i64;
    let dy = cursor.1 as i64 - press.1 as i64;
    let ax = if dx < 0 { -dx } else { dx };
    let ay = if dy < 0 { -dy } else { dy };
    ax + ay > 8
}

/// What releasing the left button means.
#[derive(Debug, Clone, Copy, PartialEq, Eq)]
pub enum Release {
    /// A drag-selection inside a field ends; nothing is dispatched.
    EndSelection,
    /// A window drag ends away from where it started: the panel stays
    /// there at full height.
    DragMoved,
    /// A press on blank space released in place: leave input and hide the
    /// revealed key.
    Dismiss,
    /// A click: dispatch the target under the cursor, if any, then leave
    /// input when `leave_input`.
    Click { leave_input: bool },
    /// Nothing to do.
    Ignore,
}

/// The meaning of a release, from the drag state before it.
pub open spec fn release_of(
    selecting: bool,
    press: Option<(i32, i32)>,
    cursor: (i32, i32),
    dragging: bool,
    input_open: bool,
    hit: Option<Hit>,
) -> Release {
    let far = match press {
        Some(p) => travel(p, cursor) > 8,
        None => false,
    };
    if selecting {
        Release::EndSelection
    } else if dragging {
        if far {
            Release::DragMoved
        } else if input_open {
            Release::Dismiss
        } else {
            Release::Ignore
        }
    } else if far {
        Release::Ignore
    } else {
        Release::Click {
            leave_input: input_open && !match hit {
                Some(h) => keeps_input(h),
                None => false,
            },
        }
    }
}

/// Classifies a release of the left button. `press` is where it went down,
/// `dragging` whether a blank-space drag was in progress, `input_open`
/// whether a field is focused or the key revealed, `hit` the target under
/// the cursor.
pub fn release_action(
    selecting: bool,
    press: Option<(i32, i32)>,
    cursor: (i32, i32),
    dragging: bool,
    input_open: bool,
    hit: Option<Hit>,
) -> (r: Release)
    ensures
        r == release_of(selecting, press, cursor, dragging, input_open, hit),
{
    if selecting {
        return Release::EndSelection;
    }
    let far = match press {
        Some(p) => moved_far(p, cursor),
        None => false,
    };
    if dragging {
        if far {
            Release::DragMoved
        } else if input_open {
            Release::Dismiss
        } else {
            Release::Ignore
        }
    } else if far {
        Release::Ignore
    } else {
        let refocus = match hit {
            Some(h) => h.is_input_hit(),
            None => false,
        };
        Release::Click { leave_input: input_open && !refocus }
    }
}

} // verus!
