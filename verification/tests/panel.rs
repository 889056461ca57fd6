use chrono::TimeZone;
use quotify::panel::{
    blink_phase, input_field_of_hit, minute_period, outside_step, popup_origin, side_popup_origin,
    view_height_for,
    AppearanceChoice, Hit, InputField, PanelView, Rect,
};

fn view_height(view: PanelView, customizing: bool, account_error: bool, accounts: usize) -> i32 {
    view_height_for(view, 300, account_error, false, customizing, accounts)
}

#[test]
fn settings_view_height_pinned() {
    let v = PanelView::Settings;
    assert_eq!(view_height(v, false, false, 0), 797);
    assert_eq!(view_height(v, false, false, 1), 845);
    assert_eq!(view_height(v, true, false, 0), 835);
    assert_eq!(view_height(v, true, false, 1), 883);
    assert_eq!(view_height(v, true, true, 1), 901);
}

#[test]
fn caret_blink_phase() {
    assert_eq!(blink_phase(0), (true, 500));
    assert_eq!(blink_phase(499), (true, 1));
    assert_eq!(blink_phase(500), (false, 500));
    assert_eq!(blink_phase(999), (false, 1));
    assert_eq!(blink_phase(1000), (true, 500));
    assert_eq!(blink_phase(1499), (true, 1));
    assert_eq!(blink_phase(1500), (false, 500));
}

#[test]
fn minute_period_boundaries() {
    let now = chrono::Utc.with_ymd_and_hms(2026, 8, 31, 12, 0, 0).unwrap();
    let at = |s: i64| (now + chrono::Duration::seconds(s)).timestamp_millis();
    let now = now.timestamp_millis();
    assert_eq!(minute_period(None, now), 60_000);
    assert_eq!(minute_period(Some(at(60)), now), 60_000);
    assert_eq!(minute_period(Some(at(59)), now), 1000);
    assert_eq!(minute_period(Some(at(1)), now), 1000);
    assert_eq!(minute_period(Some(at(-5)), now), 60_000);
}

#[test]
fn outside_step_timing() {
    let mut since = None;
    assert!(!outside_step(true, 100, &mut since));
    assert_eq!(since, None);
    assert!(!outside_step(false, 200, &mut since));
    assert_eq!(since, Some(200));
    assert!(!outside_step(false, 2200, &mut since));
    assert!(outside_step(false, 2201, &mut since));
    assert_eq!(since, None);
    assert!(!outside_step(true, 3000, &mut since));
    assert!(!outside_step(false, 3100, &mut since));
    assert_eq!(since, Some(3100));
    assert!(!outside_step(false, 5100, &mut since));
    assert!(outside_step(false, 5101, &mut since));
}

// ── further cases ─────────────────────────────────────────────────

#[test]
fn view_heights_per_view() {
    assert_eq!(view_height_for(PanelView::Main, 222, false, true, true, 3), 222);
    assert_eq!(view_height_for(PanelView::AddForm, 222, false, true, false, 0), 444);
    assert_eq!(view_height_for(PanelView::AddForm, 222, false, false, false, 0), 338);
}

#[test]
fn hits_map_to_fields() {
    assert_eq!(input_field_of_hit(Hit::InputKey), Some(InputField::Key));
    assert_eq!(input_field_of_hit(Hit::InputPeakEnd), Some(InputField::PeakEnd));
    assert_eq!(input_field_of_hit(Hit::RevealKey), None);
    assert_eq!(input_field_of_hit(Hit::Appearance(AppearanceChoice::Dark)), None);
    assert!(Hit::InputProxy.is_input_hit());
    assert!(Hit::RevealKey.is_input_hit());
    assert!(Hit::AddAccount.is_input_hit());
    assert!(Hit::CustomizeInterval.is_input_hit());
    assert!(!Hit::Refresh.is_input_hit());
    assert!(!Hit::PickAccount(2).is_input_hit());
}

#[test]
fn popup_opens_right_or_left() {
    let work = Rect { left: 0, top: 0, right: 1920, bottom: 1040 };
    let panel = Rect { left: 100, top: 500, right: 610, bottom: 1000 };
    assert_eq!(popup_origin(panel, work, 330, 200, 12), (622, 500));
    let panel = Rect { left: 1400, top: 900, right: 1910, bottom: 1030 };
    assert_eq!(popup_origin(panel, work, 330, 200, 12), (1058, 840));
    let panel = Rect { left: 20, top: -50, right: 1900, bottom: 500 };
    assert_eq!(popup_origin(panel, work, 330, 200, 12), (0, 0));
}

#[test]
fn minute_period_millisecond_edges() {
    assert_eq!(minute_period(Some(59_999), 0), 1000);
    assert_eq!(minute_period(Some(60_000), 0), 60_000);
    assert_eq!(minute_period(Some(0), 0), 60_000);
    assert_eq!(minute_period(Some(i64::MAX), i64::MIN), 60_000);
}

#[test]
fn side_popup_opens_beside_and_stays_inside() {
    let work = Rect { left: 0, top: 0, right: 1920, bottom: 1040 };
    // Room on the right: opens right of the panel, aligned with its top.
    let panel = Rect { left: 100, top: 500, right: 610, bottom: 1000 };
    assert_eq!(side_popup_origin(panel, work, 330, 200, 12), (622, 500));
    // No room on the right: opens left, and the top is pulled up to stay 8 px inside.
    let panel = Rect { left: 1400, top: 900, right: 1910, bottom: 1030 };
    assert_eq!(side_popup_origin(panel, work, 330, 200, 12), (1058, 832));
    // Neither side fits: clamped 8 px inside the left and top edges.
    let panel = Rect { left: 20, top: -50, right: 1900, bottom: 500 };
    assert_eq!(side_popup_origin(panel, work, 330, 200, 12), (8, 8));
}
