use quotify::labels::{
    fill_placeholder, interval_selected, is_interval_preset, key_prefix_label, news_date_label,
    news_unread, peak_input_bad, platform_badge, threshold_caption,
};
use quotify::panel::{Hit, Platform};

#[test]
fn platform_badges() {
    assert_eq!(platform_badge(Platform::Cn, false, "国内", "Global", "团队", " · "), "国内");
    assert_eq!(platform_badge(Platform::Intl, false, "国内", "Global", "Team", " · "), "Global");
    assert_eq!(
        platform_badge(Platform::Intl, true, "国内", "Global", "Team", " · "),
        "Global · Team"
    );
    assert_eq!(platform_badge(Platform::Cn, true, "国内", "Global", "团队", " | "), "国内 | 团队");
}

#[test]
fn key_prefix_badges() {
    assert_eq!(key_prefix_label("sk-abcdef"), Some("sk-a…".to_string()));
    assert_eq!(key_prefix_label("ab"), Some("ab…".to_string()));
    assert_eq!(key_prefix_label("密钥一二三"), Some("密钥一二…".to_string()));
    assert_eq!(key_prefix_label(""), None);
}

#[test]
fn news_read_state_follows_date_order() {
    assert!(news_unread("2026-03-02", None));
    assert!(news_unread("2026-03-02", Some("2026-03-01")));
    assert!(!news_unread("2026-03-01", Some("2026-03-01")));
    assert!(!news_unread("2026-02-28", Some("2026-03-01")));
    assert!(news_unread("2026-03-01a", Some("2026-03-01")));
    assert!(!news_unread("", Some("")));
    assert!(news_unread("a", Some("")));
}

#[test]
fn news_dates_show_month_and_day() {
    assert_eq!(news_date_label("2026-03-02"), "03-02");
    assert_eq!(news_date_label("2026-3-2"), "2026-3-2");
    assert_eq!(news_date_label("2026-03-021"), "2026-03-021");
    // Ten bytes, but byte five is inside a character: shown whole.
    assert_eq!(news_date_label("2026é-0-1"), "2026é-0-1");
    assert_eq!(news_date_label(""), "");
}

#[test]
fn peak_inputs_checked_as_typed() {
    assert!(!peak_input_bad("", ""));
    assert!(!peak_input_bad("14:00", "18:00"));
    assert!(!peak_input_bad(" 9:5 ", ""));
    assert!(peak_input_bad("24:00", "18:00"));
    assert!(peak_input_bad("14:00", "abc"));
    assert!(peak_input_bad("14:00", " 14:00"));
    assert!(peak_input_bad("  ", ""));
}

#[test]
fn poll_interval_segments() {
    assert!(is_interval_preset(60) && is_interval_preset(1800));
    assert!(!is_interval_preset(120));
    assert!(interval_selected(Hit::IntervalPreset(300), 300));
    assert!(!interval_selected(Hit::IntervalPreset(900), 300));
    assert!(!interval_selected(Hit::CustomizeInterval, 300));
    assert!(interval_selected(Hit::CustomizeInterval, 120));
    assert!(!interval_selected(Hit::Refresh, 120));
}

#[test]
fn caption_templates_fill_like_replace() {
    assert_eq!(fill_placeholder("Alert at {p}%", "{p}", "80"), "Alert at 80%");
    assert_eq!(fill_placeholder("{cur} / {tot}", "{cur}", "1.2k"), "1.2k / {tot}");
    assert_eq!(fill_placeholder("aaa", "aa", "b"), "aaa".replace("aa", "b"));
    assert_eq!(fill_placeholder("", "{v}", "1.0"), "");
    assert_eq!(fill_placeholder("no key", "{v}", "1.0"), "no key");
    assert_eq!(fill_placeholder("ab", "", "-"), "ab".replace("", "-"));
    assert_eq!(fill_placeholder("", "", "-"), "-");
    assert_eq!(threshold_caption("用量达到 {p}% 时提醒", 80), "用量达到 80% 时提醒");
    assert_eq!(threshold_caption("{p}{p}", 5), "55");
    assert_eq!(threshold_caption("{p", 100), "{p");
    assert_eq!(threshold_caption("{p}", 0), "0");
    assert_eq!(threshold_caption("{p}", 255), "255");
}
