use quotify::panel::{Hit, Rect};
use quotify::tick::{
    frame_top, moved_far, near_anchor, parse_callback, release_action, shrink_starts, soonest_after, tick_plan,
    HeightFrame, Release, TickInput, TimerChange,
};

fn idle(period: u32) -> TickInput {
    TickInput {
        appear: None,
        footer: None,
        spinning: false,
        height: None,
        caret: None,
        blink_drawn: false,
        period,
    }
}

#[test]
fn idle_clock_stops() {
    let p = tick_plan(idle(16));
    assert_eq!(p.timer, TimerChange::Stop);
    assert_eq!(p.period, 0);
    assert!(!p.repaint);
    assert!(!p.drop_appear && !p.drop_footer && !p.drop_height && !p.relayout);
}

#[test]
fn finished_fade_in_draws_its_last_frame_and_stops() {
    let p = tick_plan(TickInput { appear: Some(true), ..idle(16) });
    assert!(p.drop_appear);
    assert!(p.repaint);
    assert_eq!(p.timer, TimerChange::Stop);
    assert_eq!(p.period, 0);
}

#[test]
fn footer_alone_runs_at_half_rate() {
    let p = tick_plan(TickInput { footer: Some(false), ..idle(16) });
    assert_eq!(p.timer, TimerChange::Restart(33));
    assert_eq!(p.period, 33);
    assert!(p.repaint);
    let p = tick_plan(TickInput { footer: Some(false), ..idle(33) });
    assert_eq!(p.timer, TimerChange::Keep);
    // With the fade-in present as well the full rate returns.
    let p = tick_plan(TickInput { footer: Some(false), appear: Some(false), ..idle(33) });
    assert_eq!(p.timer, TimerChange::Restart(16));
    // A spin also keeps the full rate.
    let p = tick_plan(TickInput { footer: Some(false), spinning: true, ..idle(16) });
    assert_eq!(p.timer, TimerChange::Keep);
    assert_eq!(p.period, 16);
}

#[test]
fn caret_alone_sleeps_until_the_next_flip() {
    let p = tick_plan(TickInput { caret: Some((true, 300)), ..idle(16) });
    assert!(p.repaint);
    assert!(p.blink_drawn);
    assert_eq!(p.timer, TimerChange::Restart(300));
    assert_eq!(p.period, 300);
    // Same phase as drawn: no repaint.
    let p = tick_plan(TickInput { caret: Some((true, 300)), blink_drawn: true, ..idle(300) });
    assert!(!p.repaint);
    assert_eq!(p.timer, TimerChange::Keep);
    // A zero wait still ticks after 1 ms.
    let p = tick_plan(TickInput { caret: Some((false, 0)), blink_drawn: true, ..idle(16) });
    assert!(p.repaint);
    assert!(!p.blink_drawn);
    assert_eq!(p.timer, TimerChange::Restart(1));
}

#[test]
fn height_transition_keeps_the_clock_for_its_last_frame() {
    let h = HeightFrame { finished: true, resized: true, layout_stale: true };
    let p = tick_plan(TickInput { height: Some(h), footer: Some(false), ..idle(16) });
    assert!(p.drop_height);
    assert!(p.relayout);
    assert!(p.repaint);
    // The height transition cancels the footer's half rate.
    assert_eq!(p.timer, TimerChange::Keep);
    assert_eq!(p.period, 16);
    let h = HeightFrame { finished: false, resized: false, layout_stale: true };
    let p = tick_plan(TickInput { height: Some(h), ..idle(0) });
    assert!(!p.drop_height && !p.relayout && !p.repaint);
    assert_eq!(p.timer, TimerChange::Restart(16));
}

#[test]
fn soonest_upcoming_reset() {
    assert_eq!(soonest_after(&[5, 100, 50, -3], 10), Some(50));
    assert_eq!(soonest_after(&[5, 10, -3], 10), None);
    assert_eq!(soonest_after(&[], 0), None);
    assert_eq!(soonest_after(&[i64::MAX, i64::MIN], i64::MIN), Some(i64::MAX));
}

#[test]
fn near_the_tray_anchor() {
    let a = Some(Rect { left: 100, top: 100, right: 120, bottom: 120 });
    assert!(near_anchor(a, 76, 100));
    assert!(near_anchor(a, 144, 144));
    assert!(!near_anchor(a, 75, 100));
    assert!(!near_anchor(a, 110, 145));
    assert!(!near_anchor(None, 110, 110));
    let edge = Some(Rect { left: i32::MIN, top: i32::MIN, right: i32::MAX, bottom: i32::MAX });
    assert!(near_anchor(edge, 0, 0));
}

#[test]
fn drag_threshold_is_eight_pixels() {
    assert!(!moved_far((0, 0), (4, 4)));
    assert!(moved_far((0, 0), (5, 4)));
    assert!(moved_far((10, 10), (1, 10)));
    assert!(moved_far((i32::MIN, i32::MIN), (i32::MAX, i32::MAX)));
}

#[test]
fn release_meanings() {
    let here = Some((50, 50));
    assert_eq!(release_action(true, here, (200, 200), true, true, None), Release::EndSelection);
    assert_eq!(release_action(false, here, (200, 200), true, true, None), Release::DragMoved);
    assert_eq!(release_action(false, here, (52, 50), true, true, None), Release::Dismiss);
    assert_eq!(release_action(false, here, (52, 50), true, false, None), Release::Ignore);
    assert_eq!(release_action(false, here, (200, 50), false, true, None), Release::Ignore);
    assert_eq!(
        release_action(false, here, (50, 50), false, true, Some(Hit::Refresh)),
        Release::Click { leave_input: true }
    );
    assert_eq!(
        release_action(false, here, (50, 50), false, true, Some(Hit::InputProxy)),
        Release::Click { leave_input: false }
    );
    assert_eq!(
        release_action(false, None, (50, 50), false, false, None),
        Release::Click { leave_input: false }
    );
}

#[test]
fn shrinking_needs_a_still_visible_taller_window() {
    assert!(shrink_starts(false, 300, 500, true, true));
    assert!(!shrink_starts(true, 300, 500, true, true));
    assert!(!shrink_starts(false, 500, 500, true, true));
    assert!(!shrink_starts(false, 300, 500, false, true));
    assert!(!shrink_starts(false, 300, 500, true, false));
}

#[test]
fn anchored_frames_stay_below_the_work_area_top() {
    assert_eq!(frame_top(1040, 400, 8, 0), 632);
    assert_eq!(frame_top(300, 400, 8, 0), 8);
    assert_eq!(frame_top(300, 284, 8, 0), 8);
    assert_eq!(frame_top(300, 283, 8, 0), 9);
}

#[test]
fn tray_callback_code_is_the_low_word() {
    assert_eq!(parse_callback(0x0200), 0x0200);
    assert_eq!(parse_callback(0x0003_0205), 0x0205);
    assert_eq!(parse_callback(-1), 0xFFFF);
    assert_eq!(parse_callback(0), 0);
}
