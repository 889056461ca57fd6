//! Panel state vocabulary (views, input fields, hit targets) and the pure
//! decisions of the panel window: heights per view, caret blinking, the
//! outside-check timer, the minute tick, and popup placement.

use vstd::prelude::*;

use crate::layout::{add_page_height, settings_height, settings_view_height};

verus! {

/// Display mode of the panel: pinned open or hidden; a left click toggles.
#[derive(Debug, Clone, Copy, PartialEq, Eq)]
pub enum PanelMode {
    Pinned,
    Hidden,
}

/// The view the panel shows.
#[derive(Debug, Clone, Copy, PartialEq, Eq)]
pub enum PanelView {
    Main,
    Settings,
    AddForm,
}

/// The field a text input edits: settings fields first, then the add form.
#[derive(Debug, Clone, Copy, PartialEq, Eq, Structural)]
pub enum InputField {
    /// Settings: custom poll interval.
    Interval,
    /// Settings: network proxy address.
    Proxy,
    /// Settings: peak range start.
    PeakStart,
    /// Settings: peak range end.
    PeakEnd,
    /// Add form: account name.
    Name,
    /// Add form: API key.
    Key,
    /// Add form (team): organization id.
    Org,
    /// Add form (team): project id.
    Project,
}

/// Appearance choice; `System` follows the system.
#[derive(Debug, Clone, Copy, PartialEq, Eq)]
pub enum AppearanceChoice {
    System,
    Light,
    Dark,
}

/// Interface language choice; `System` follows the system.
#[derive(Debug, Clone, Copy, PartialEq, Eq)]
pub enum LanguageChoice {
    System,
    Zh,
    En,
}

/// Account scope for a new account: personal or team (team is domestic
/// only).
#[derive(Debug, Clone, Copy, PartialEq, Eq)]
pub enum ScopeChoice {
    Personal,
    Team,
}

/// The service site an account belongs to.
#[derive(Debug, Clone, Copy, PartialEq, Eq)]
pub enum Platform {
    Cn,
    Intl,
}

/// Clickable element identifiers used for hit testing, grouped by scene.
#[derive(Debug, Clone, Copy, PartialEq)]
pub enum Hit {
    // Main view
    Refresh,
    Settings,
    AccountSwitch,
    Retry,
    UsageInfo,
    // Navigation
    Back,
    ClosePanel,
    // Settings: poll interval
    IntervalPreset(u64),
    CustomizeInterval,
    ApplyInterval,
    InputInterval,
    // Settings: general
    Language(LanguageChoice),
    Appearance(AppearanceChoice),
    ToggleAutostart,
    // Settings: network proxy
    InputProxy,
    // Settings: usage notifications
    ToggleThreshold,
    ToggleReset5h,
    ToggleResetWeekly,
    // Settings: peak range
    InputPeakStart,
    InputPeakEnd,
    ApplyPeak,
    // Settings: accounts
    AddAccount,
    RemoveAccount(usize),
    PickAccount(usize),
    AccountType(ScopeChoice),
    InputName,
    InputKey,
    RevealKey,
    InputOrg,
    InputProject,
    SaveAccount,
    Platform(Platform),
    // Settings: backup and about
    ExportConfig,
    ImportConfig,
    CheckUpdate,
    OpenDownload,
    // About window
    LinkRepo,
    LinkIssues,
    CopyDiagnostics,
    NewsItem(usize),
    AboutLogo,
}

/// The input field an input-box hit edits; every other hit maps to none.
pub open spec fn field_of_hit(hit: Hit) -> Option<InputField> {
    match hit {
        Hit::InputInterval => Some(InputField::Interval),
        Hit::InputProxy => Some(InputField::Proxy),
        Hit::InputPeakStart => Some(InputField::PeakStart),
        Hit::InputPeakEnd => Some(InputField::PeakEnd),
        Hit::InputName => Some(InputField::Name),
        Hit::InputKey => Some(InputField::Key),
        Hit::InputOrg => Some(InputField::Org),
        Hit::InputProject => Some(InputField::Project),
        _ => None,
    }
}

/// The input field an input-box hit edits. The eye toggle and the
/// customize button are not text areas and map to none.
pub fn input_field_of_hit(hit: Hit) -> (r: Option<InputField>)
    ensures
        r == field_of_hit(hit),
{
    match hit {
        Hit::InputInterval => Some(InputField::Interval),
        Hit::InputProxy => Some(InputField::Proxy),
        Hit::InputPeakStart => Some(InputField::PeakStart),
        Hit::InputPeakEnd => Some(InputField::PeakEnd),
        Hit::InputName => Some(InputField::Name),
        Hit::InputKey => Some(InputField::Key),
        Hit::InputOrg => Some(InputField::Org),
        Hit::InputProject => Some(InputField::Project),
        Hit::Refresh | Hit::Settings | Hit::AccountSwitch | Hit::Retry | Hit::UsageInfo | Hit::Back
        | Hit::ClosePanel | Hit::IntervalPreset(_) | Hit::CustomizeInterval | Hit::ApplyInterval
        | Hit::Language(_) | Hit::Appearance(_) | Hit::ToggleAutostart | Hit::ToggleThreshold
        | Hit::ToggleReset5h | Hit::ToggleResetWeekly | Hit::ApplyPeak | Hit::AddAccount
        | Hit::RemoveAccount(_) | Hit::PickAccount(_) | Hit::AccountType(_) | Hit::RevealKey
        | Hit::SaveAccount | Hit::Platform(_) | Hit::ExportConfig | Hit::ImportConfig
        | Hit::CheckUpdate | Hit::OpenDownload | Hit::LinkRepo | Hit::LinkIssues
        | Hit::CopyDiagnostics | Hit::NewsItem(_) | Hit::AboutLogo => None,
    }
}

/// Hits after which input (or key reveal) stays active: input boxes, the
/// customize button, add account and the key eye.
pub open spec fn keeps_input(hit: Hit) -> bool {
    ||| field_of_hit(hit) is Some
    ||| hit is CustomizeInterval
    ||| hit is AddAccount
    ||| hit is RevealKey
}

impl Hit {
    /// Whether a click on this target keeps (or enters) input mode.
    pub fn is_input_hit(&self) -> (r: bool)
        ensures
            r == keeps_input(*self),
    {
        input_field_of_hit(*self).is_some() || match self {
            Hit::CustomizeInterval | Hit::AddAccount | Hit::RevealKey => true,
            _ => false,
        }
    }
}

/// Logical height of a view: the main view keeps its measured height, the
/// add form and settings follow the layout chain.
pub open spec fn view_height(
    view: PanelView,
    main_h: i32,
    account_error: bool,
    team: bool,
    customizing: bool,
    accounts: usize,
) -> int {
    match view {
        PanelView::Main => main_h as int,
        PanelView::AddForm => 338 + if team { 106int } else { 0int },
        PanelView::Settings => settings_height(accounts > 0, account_error, customizing),
    }
}

/// Logical height of `view` for the given layout combination.
pub fn view_height_for(
    view: PanelView,
    main_h: i32,
    account_error: bool,
    team: bool,
    customizing: bool,
    accounts: usize,
) -> (h: i32)
    ensures
        h == view_height(view, main_h, account_error, team, customizing, accounts),
{
    match view {
        PanelView::Main => main_h,
        PanelView::AddForm => add_page_height(team),
        PanelView::Settings => settings_view_height(accounts > 0, account_error, customizing),
    }
}

// ── Caret blinking ─────────────────────────────────────────────────

/// Blink phase `elapsed_ms` after the last interaction: visible for the
/// first half of each second, hidden for the second; with the
/// milliseconds left until the next flip.
pub open spec fn blink(elapsed_ms: u128) -> (bool, u32) {
    let t = elapsed_ms % 1000;
    if t < 500 {
        (true, (500 - t) as u32)
    } else {
        (false, (1000 - t) as u32)
    }
}

/// Caret blink phase: visible or not, and milliseconds to the next flip.
pub fn blink_phase(elapsed_ms: u128) -> (r: (bool, u32))
    ensures
        r == blink(elapsed_ms),
{
    let on: u128 = 500;
    let total: u128 = 1000;
    let t = elapsed_ms % total;
    if t < on {
        (true, (on - t) as u32)
    } else {
        (false, (total - t) as u32)
    }
}

/// The blink cycle repeats every second.
pub proof fn law_blink_periodic(elapsed_ms: u128)
    requires
        elapsed_ms + 1000 <= u128::MAX,
    ensures
        blink((elapsed_ms + 1000) as u128) == blink(elapsed_ms),
        blink(elapsed_ms).0 ==> 1 <= blink(elapsed_ms).1 <= 500,
        !blink(elapsed_ms).0 ==> 1 <= blink(elapsed_ms).1 <= 500,
{
}

// ── Outside check ──────────────────────────────────────────────────

/// How long the cursor may stay away before the panel hides.
pub const OUTSIDE_HIDE_MS: u64 = 2000;

/// One step of the outside check, as (hide, timer after): presence
/// clears the timer; absence starts it on its first tick; once more than
/// `OUTSIDE_HIDE_MS` passed since then the panel hides and the timer is
/// cleared.
pub open spec fn outside_next(present: bool, now: u64, since: Option<u64>) -> (bool, Option<u64>) {
    if present {
        (false, None)
    } else {
        let start = match since {
            Some(s) => s,
            None => now,
        };
        if now - start > OUTSIDE_HIDE_MS {
            (true, None)
        } else {
            (false, Some(start))
        }
    }
}

/// One step of the outside check, updating the absence timer `since`;
/// returns whether the panel should hide.
pub fn outside_step(present: bool, now: u64, since: &mut Option<u64>) -> (hide: bool)
    requires
        !present && (*old(since)) is Some ==> (*old(since)).unwrap() <= now,
    ensures
        (hide, *final(since)) == outside_next(present, now, *old(since)),
{
    if present {
        *since = None;
        return false;
    }
    let start = match *since {
        Some(s) => s,
        None => now,
    };
    if now - start > OUTSIDE_HIDE_MS {
        *since = None;
        true
    } else {
        *since = Some(start);
        false
    }
}

/// The panel hides once the cursor has stayed away for more than
/// `OUTSIDE_HIDE_MS`, counted from the first check that found it away:
/// after a check at `t0` finds the cursor away (with no timer running),
/// a later check at `t1` that still finds it away hides the panel exactly
/// when `t1 - t0` exceeds the limit, and any check that finds it present
/// clears the timer without hiding.
pub proof fn law_outside_counts_from_first_absence(t0: u64, t1: u64)
    requires
        t0 <= t1,
    ensures
        outside_next(false, t0, None) == (false, Some(t0)),
        outside_next(false, t1, Some(t0)).0 == (t1 - t0 > OUTSIDE_HIDE_MS),
        outside_next(true, t1, Some(t0)) == (false, None::<u64>),
{
}

// ── Minute tick ────────────────────────────────────────────────────

/// The redraw tick: per second while the soonest reset is less than a
/// minute ahead, per minute otherwise (also when it is past or unknown).
/// Times are milliseconds on one clock.
pub open spec fn tick_period(soonest: Option<i64>, now: i64) -> u32 {
    match soonest {
        Some(t) if t > now && t - now < 60000 => 1000,
        _ => 60000,
    }
}

/// Period of the minute tick, in milliseconds, for the soonest upcoming
/// reset (`soonest`) at time `now`, both in milliseconds.
pub fn minute_period(soonest: Option<i64>, now: i64) -> (p: u32)
    ensures
        p == tick_period(soonest, now),
{
    match soonest {
        Some(t) => {
            if t > now && (t as i128) - (now as i128) < 60000 {
                1000
            } else {
                60000
            }
        },
        None => 60000,
    }
}

// ── Popup placement ────────────────────────────────────────────────

/// A screen rectangle in physical pixels.
#[derive(Debug, Clone, Copy, PartialEq, Eq)]
pub struct Rect {
    pub left: i32,
    pub top: i32,
    pub right: i32,
    pub bottom: i32,
}

/// Where the account popup opens next to the panel: right of it with a
/// gap; if that leaves the work area, left of it (not past the work
/// area's left edge). Vertically aligned with the panel's top, clamped
/// into the work area.
pub open spec fn popup_at(panel: Rect, work: Rect, w: i32, h: i32, gap: i32) -> (int, int) {
    let right_x = panel.right + gap;
    let x = if right_x + w > work.right {
        let left_x = panel.left - w - gap;
        if left_x > work.left {
            left_x
        } else {
            work.left as int
        }
    } else {
        right_x
    };
    let hi = if work.bottom - h > work.top {
        work.bottom - h
    } else {
        work.top as int
    };
    let y = if panel.top < work.top {
        work.top as int
    } else if panel.top > hi {
        hi
    } else {
        panel.top as int
    };
    (x, y)
}

/// Origin of the account popup of width `w` and height `h` beside `panel`
/// within `work`.
pub fn popup_origin(panel: Rect, work: Rect, w: i32, h: i32, gap: i32) -> (r: (i32, i32))
    requires
        i32::MIN <= panel.right + gap + w <= i32::MAX,
        i32::MIN <= panel.right + gap <= i32::MAX,
        i32::MIN <= panel.left - w - gap <= i32::MAX,
        i32::MIN <= panel.left - w <= i32::MAX,
        i32::MIN <= work.bottom - h <= i32::MAX,
    ensures
        (r.0 as int, r.1 as int) == popup_at(panel, work, w, h, gap),
{
    let mut x = panel.right + gap;
    if x + w > work.right {
        let left_x = panel.left - w - gap;
        x = if left_x > work.left { left_x } else { work.left };
    }
    let hi = if work.bottom - h > work.top { work.bottom - h } else { work.top };
    let y = if panel.top < work.top {
        work.top
    } else if panel.top > hi {
        hi
    } else {
        panel.top
    };
    (x, y)
}

/// Where the side popup (the panel's own account popup) of width `w` and
/// height `h` opens: right of the panel with a gap, or left of it when
/// that crosses the work area's right edge less 8 px; then kept 8 px
/// inside the work area horizontally and vertically, aligned with the
/// panel's top.
pub open spec fn side_popup_at(panel: Rect, work: Rect, w: i32, h: i32, gap: i32) -> (int, int) {
    let x0 = if panel.right + gap + w > work.right - 8 {
        panel.left - gap - w
    } else {
        panel.right + gap
    };
    let x_lo = work.left + 8;
    let x_hi = if work.right - 8 - w > x_lo {
        work.right - 8 - w
    } else {
        x_lo
    };
    let y_lo = work.top + 8;
    let y_hi = if work.bottom - 8 - h > y_lo {
        work.bottom - 8 - h
    } else {
        y_lo
    };
    (
        if x0 < x_lo {
            x_lo
        } else if x0 > x_hi {
            x_hi
        } else {
            x0
        },
        if panel.top < y_lo {
            y_lo
        } else if panel.top > y_hi {
            y_hi
        } else {
            panel.top as int
        },
    )
}

/// Origin of the panel's side popup.
pub fn side_popup_origin(panel: Rect, work: Rect, w: i32, h: i32, gap: i32) -> (r: (i32, i32))
    requires
        fits_i32(panel.right + gap),
        fits_i32(panel.right + gap + w),
        fits_i32(panel.left - gap),
        fits_i32(panel.left - gap - w),
        fits_i32(work.right - 8),
        fits_i32(work.right - 8 - w),
        fits_i32(work.left + 8),
        fits_i32(work.top + 8),
        fits_i32(work.bottom - 8),
        fits_i32(work.bottom - 8 - h),
    ensures
        (r.0 as int, r.1 as int) == side_popup_at(panel, work, w, h, gap),
{
    let mut x = panel.right + gap;
    if x + w > work.right - 8 {
        x = panel.left - gap - w;
    }
    let x_lo = work.left + 8;
    let x_hi = if work.right - 8 - w > x_lo { work.right - 8 - w } else { x_lo };
    x = if x < x_lo {
        x_lo
    } else if x > x_hi {
        x_hi
    } else {
        x
    };
    let y_lo = work.top + 8;
    let y_hi = if work.bottom - 8 - h > y_lo { work.bottom - 8 - h } else { y_lo };
    let y = if panel.top < y_lo {
        y_lo
    } else if panel.top > y_hi {
        y_hi
    } else {
        panel.top
    };
    (x, y)
}

// ── Panel placement ────────────────────────────────────────────────

/// `x / 2` rounded toward zero, as Rust's integer division does.
pub open spec fn half(x: int) -> int {
    if x >= 0 {
        x / 2
    } else {
        -((-x) / 2)
    }
}

/// Whether `x` fits in an `i32`.
pub open spec fn fits_i32(x: int) -> bool {
    i32::MIN <= x <= i32::MAX
}

/// Where the panel of width `w` and height `h` pops up above the tray
/// anchor: centred on the anchor, `gap` above it, kept 8 px inside the
/// work area's left, right and top edges (the right edge wins over the
/// left one).
pub open spec fn anchored_at(anchor: Rect, work: Rect, w: i32, h: i32, gap: i32) -> (int, int) {
    let x0 = half(anchor.left + anchor.right) - half(w as int);
    let x1 = if x0 < work.left + 8 {
        work.left + 8
    } else {
        x0
    };
    let x2 = if x1 + w > work.right - 8 {
        work.right - 8 - w
    } else {
        x1
    };
    let y0 = anchor.top - h - gap;
    let y1 = if y0 < work.top + 8 {
        work.top + 8
    } else {
        y0
    };
    (x2, y1)
}

/// The popped-up panel is centred on the tray icon: when its centred
/// position keeps 8 px inside both sides of the work area, the panel's
/// horizontal centre is the icon's, to within a pixel of rounding; it sits
/// `gap` above the icon unless that would leave the work area's top less
/// 8 px, and never higher than that.
pub proof fn law_anchored_centres_on_icon(anchor: Rect, work: Rect, w: i32, h: i32, gap: i32)
    requires
        w >= 0,
        2 * (work.left + 8) + 2 <= anchor.left + anchor.right - w,
        anchor.left + anchor.right + w + 1 <= 2 * (work.right - 8),
    ensures
        -1 <= 2 * anchored_at(anchor, work, w, h, gap).0 + w - (anchor.left + anchor.right) <= 2,
        anchored_at(anchor, work, w, h, gap).1 >= work.top + 8,
        anchor.top - h - gap >= work.top + 8 ==> anchored_at(anchor, work, w, h, gap).1 == anchor.top
            - h - gap,
{
    let c = anchor.left + anchor.right;
    assert(-1 <= 2 * half(c) - c <= 1);
    assert(-1 <= 2 * half(w as int) - w <= 0);
}

/// Origin of the panel popped up from the tray anchor.
pub fn anchored_origin(anchor: Rect, work: Rect, w: i32, h: i32, gap: i32) -> (r: (i32, i32))
    requires
        fits_i32(anchor.left + anchor.right),
        fits_i32(half(anchor.left + anchor.right) - half(w as int)),
        fits_i32(work.left + 8),
        fits_i32(work.right - 8),
        fits_i32(work.right - 8 - w),
        fits_i32(work.top + 8),
        fits_i32(anchor.top - h),
        fits_i32(anchor.top - h - gap),
        fits_i32(half(anchor.left + anchor.right) - half(w as int) + w),
        fits_i32(work.left + 8 + w),
    ensures
        (r.0 as int, r.1 as int) == anchored_at(anchor, work, w, h, gap),
{
    let ax = (anchor.left + anchor.right) / 2;
    let mut x = ax - w / 2;
    let mut y = anchor.top - h - gap;
    if x < work.left + 8 {
        x = work.left + 8;
    }
    if x + w > work.right - 8 {
        x = work.right - 8 - w;
    }
    if y < work.top + 8 {
        y = work.top + 8;
    }
    (x, y)
}

/// Height of the panel window: a dragged panel keeps its full height; a
/// popped-up one is squeezed into the work area less 16 px, but never
/// below `min_h`.
pub open spec fn fitted_height(h: i32, moved: bool, work: Rect, min_h: i32) -> int {
    if moved {
        h as int
    } else {
        let room = work.bottom - work.top - 16;
        let max_h = if room > min_h {
            room
        } else {
            min_h as int
        };
        if h < max_h {
            h as int
        } else {
            max_h
        }
    }
}

/// Panel window height for a logical height already scaled to `h`
/// physical pixels.
pub fn fit_height(h: i32, moved: bool, work: Rect, min_h: i32) -> (r: i32)
    requires
        fits_i32(work.bottom - work.top),
        fits_i32(work.bottom - work.top - 16),
    ensures
        r == fitted_height(h, moved, work, min_h),
{
    if moved {
        return h;
    }
    let room = work.bottom - work.top - 16;
    let max_h = if room > min_h { room } else { min_h };
    if h < max_h {
        h
    } else {
        max_h
    }
}

/// Where a dragged window of size `w` × `h` goes for the cursor at
/// `(cx, cy)` held at offset `(ox, oy)`: following the cursor, but keeping
/// a 64 px corner inside the work area on every side.
pub open spec fn dragged_to(cx: i32, cy: i32, ox: i32, oy: i32, w: i32, h: i32, work: Rect) -> (int, int) {
    let x_lo = work.left - w + 64;
    let x_hi = if work.right - 64 > x_lo {
        work.right - 64
    } else {
        x_lo
    };
    let y_lo = work.top - h + 64;
    let y_hi = if work.bottom - 64 > y_lo {
        work.bottom - 64
    } else {
        y_lo
    };
    let x = cx - ox;
    let y = cy - oy;
    (
        if x < x_lo {
            x_lo
        } else if x > x_hi {
            x_hi
        } else {
            x
        },
        if y < y_lo {
            y_lo
        } else if y > y_hi {
            y_hi
        } else {
            y
        },
    )
}

/// A dragged window stays reachable: at least 64 px of it remain inside
/// the work area horizontally and vertically (when the work area is large
/// enough to allow it).
pub proof fn law_drag_keeps_corner(cx: i32, cy: i32, ox: i32, oy: i32, w: i32, h: i32, work: Rect)
    ensures
        ({
            let (x, y) = dragged_to(cx, cy, ox, oy, w, h, work);
            &&& x + w >= work.left + 64
            &&& y + h >= work.top + 64
            &&& work.right - 64 >= work.left - w + 64 ==> x <= work.right - 64
            &&& work.bottom - 64 >= work.top - h + 64 ==> y <= work.bottom - 64
        }),
{
}

/// Window origin while dragging the panel.
pub fn drag_origin(cx: i32, cy: i32, ox: i32, oy: i32, w: i32, h: i32, work: Rect) -> (r: (i32, i32))
    requires
        fits_i32(cx - ox),
        fits_i32(cy - oy),
        fits_i32(work.left - w),
        fits_i32(work.left - w + 64),
        fits_i32(work.right - 64),
        fits_i32(work.top - h),
        fits_i32(work.top - h + 64),
        fits_i32(work.bottom - 64),
    ensures
        (r.0 as int, r.1 as int) == dragged_to(cx, cy, ox, oy, w, h, work),
{
    let x_lo = work.left - w + 64;
    let x_hi = if work.right - 64 > x_lo { work.right - 64 } else { x_lo };
    let y_lo = work.top - h + 64;
    let y_hi = if work.bottom - 64 > y_lo { work.bottom - 64 } else { y_lo };
    let x = cx - ox;
    let y = cy - oy;
    let x = if x < x_lo {
        x_lo
    } else if x > x_hi {
        x_hi
    } else {
        x
    };
    let y = if y < y_lo {
        y_lo
    } else if y > y_hi {
        y_hi
    } else {
        y
    };
    (x, y)
}

} // verus!
