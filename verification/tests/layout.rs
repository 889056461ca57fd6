use quotify::layout::{
    add_page_height, interval_input_y, main_view_height, peak_input_y, proxy_input_y,
    settings_view_height,
};
use quotify::views::{about_height, popup_height, NewsItem};

#[test]
fn interval_input_y_pinned() {
    assert_eq!(interval_input_y(false, false), 171);
    assert_eq!(interval_input_y(false, true), 171);
    assert_eq!(interval_input_y(true, false), 219);
    assert_eq!(interval_input_y(true, true), 237);
}

#[test]
fn peak_input_y_pinned() {
    assert_eq!(peak_input_y(false, false, false), 363);
    assert_eq!(peak_input_y(true, false, false), 411);
    assert_eq!(peak_input_y(true, true, false), 429);
    assert_eq!(peak_input_y(true, true, true), 467);
    assert_eq!(peak_input_y(false, false, true), 401);
}

#[test]
fn proxy_input_y_pinned() {
    assert_eq!(proxy_input_y(false, false, false), 636);
    assert_eq!(proxy_input_y(true, false, false), 684);
    assert_eq!(proxy_input_y(true, true, false), 702);
    assert_eq!(proxy_input_y(true, true, true), 740);
    assert_eq!(proxy_input_y(false, false, true), 674);
}

#[test]
fn add_page_height_pinned() {
    assert_eq!(add_page_height(false), 338);
    assert_eq!(add_page_height(true), 444);
}

#[test]
fn main_view_height_pinned() {
    assert_eq!(main_view_height(false, 0, false, false, false), 300);
    assert_eq!(main_view_height(true, 0, false, false, false), 146);
    assert_eq!(main_view_height(true, 1, false, false, false), 198);
    assert_eq!(main_view_height(true, 3, false, false, true), 342);
    assert_eq!(main_view_height(true, 3, false, true, true), 422);
    assert_eq!(main_view_height(true, 2, false, true, false), 330);
    assert_eq!(main_view_height(true, 3, true, false, false), 351);
    assert_eq!(main_view_height(true, 1, true, false, false), 247);
}

fn item(lines: usize) -> NewsItem {
    NewsItem {
        date: "2026-08-28".into(),
        title: "t".into(),
        lines: vec!["l".to_string(); lines],
    }
}

#[test]
fn about_height_pinned() {
    assert_eq!(about_height(None, None), 200);
    assert_eq!(about_height(Some(&[]), None), 200);
    let one = vec![item(2)];
    assert_eq!(about_height(Some(&one), None), 278);
    assert_eq!(about_height(Some(&one), Some(0)), 298);
    let many = vec![item(1); 5];
    assert_eq!(about_height(Some(&many), None), 370);
}

// ── further cases ─────────────────────────────────────────────────

#[test]
fn settings_height_matches_chain() {
    assert_eq!(settings_view_height(false, false, false), 797);
    assert_eq!(settings_view_height(true, false, false), 845);
    assert_eq!(settings_view_height(true, true, true), 901);
}

#[test]
fn heights_saturate() {
    assert_eq!(main_view_height(true, usize::MAX, true, true, true), i32::MAX);
    assert_eq!(popup_height(usize::MAX), i32::MAX);
}

#[test]
fn popup_height_formula() {
    assert_eq!(popup_height(0), 48);
    assert_eq!(popup_height(1), 84);
    assert_eq!(popup_height(3), 156);
}

#[test]
fn about_height_expanded_index_out_of_range() {
    let two = vec![item(3), item(4)];
    assert_eq!(about_height(Some(&two), Some(1)), 204 + (40 + 6) + (92 + 6) + 28);
    assert_eq!(about_height(Some(&two), Some(7)), 204 + 2 * 46 + 28);
}
