use quotify::chars::wide;
use quotify::model::{Account, AccountView, General, PanelModel};
use quotify::panel::Platform;
use quotify::views::{
    cell_runs, error_text, mask_key, plan_meta, tier_shade, with_detail, FetchError, Strings,
    TierShade, MCP_CELLS,
};

#[test]
fn mask_key_threshold() {
    assert_eq!(mask_key("abc123", false), "••••••");
    assert_eq!(mask_key("abcd1234wxyz", false), "abcd…wxyz");
    assert_eq!(mask_key("abcd1234wxyz9999", false), "abcd…9999");
}

#[test]
fn mask_key_active_full_dots() {
    assert_eq!(mask_key("abcd1234wxyz9999", true), "•".repeat(16));
    assert_eq!(mask_key("abc", true), "•••");
}

#[test]
fn mask_key_no_middle_plaintext() {
    let m = mask_key("abcdefghijkl", false);
    assert_eq!(m, "abcd…ijkl");
    assert!(!m.contains('e') && !m.contains('h'));
}

// ── further cases ─────────────────────────────────────────────────

#[test]
fn mask_key_counts_characters() {
    assert_eq!(mask_key("", false), "");
    assert_eq!(mask_key("密钥一二三四五六七八九十", false), "密钥一二…七八九十");
}

const STRINGS: Strings = Strings {
    err_auth: "Key rejected",
    err_empty: "No limits",
    err_api: "API error",
    err_network: "Network error",
};

#[test]
fn error_captions() {
    assert_eq!(error_text(&STRINGS, &FetchError::Auth), "Key rejected");
    assert_eq!(error_text(&STRINGS, &FetchError::EmptyLimits), "No limits");
    assert_eq!(
        error_text(&STRINGS, &FetchError::Api("HTTP 500".to_string())),
        "API error: HTTP 500"
    );
    assert_eq!(error_text(&STRINGS, &FetchError::Network(String::new())), "Network error");
    assert_eq!(with_detail("p", "d"), "p: d");
    assert_eq!(with_detail("p", ""), "p");
}

#[test]
fn wide_is_nul_terminated_utf16() {
    assert_eq!(wide("A"), vec![0x41, 0]);
    assert_eq!(wide(""), vec![0]);
    let s = "a好😀";
    let mut expect: Vec<u16> = s.encode_utf16().collect();
    expect.push(0);
    assert_eq!(wide(s), expect);
}

fn acc(id: &str, name: &str) -> Account {
    Account { id: id.to_string(), name: name.to_string(), platform: Platform::Cn, team: false }
}

#[test]
fn account_view_selection() {
    let accounts = vec![acc("a1", "One"), acc("b2", "Two"), acc("b2", "Three")];
    let v = AccountView::select(&accounts, Some("b2")).unwrap();
    assert_eq!((v.index, v.name), (1, "Two"));
    let v = AccountView::select(&accounts, Some("zz")).unwrap();
    assert_eq!((v.index, v.name), (0, "One"));
    let v = AccountView::select(&accounts, None).unwrap();
    assert_eq!(v.index, 0);
    assert!(AccountView::select(&[], Some("a1")).is_none());
}

#[test]
fn plan_subtitle_joins_version_and_tier() {
    assert_eq!(plan_meta("v2", "Pro", None), Some("v2 · Pro".to_string()));
    assert_eq!(plan_meta("v2", "", Some("Team")), Some("v2 · Team".to_string()));
    assert_eq!(plan_meta("v2", "", None), Some("v2".to_string()));
    assert_eq!(plan_meta("", "", Some("Lite plan")), Some("Lite plan".to_string()));
    assert_eq!(plan_meta("", "Max", Some("ignored")), Some("Max".to_string()));
    assert_eq!(plan_meta("", "", None), None);
    assert_eq!(plan_meta("", "", Some("")), None);
}

#[test]
fn tier_badge_shades() {
    assert_eq!(tier_shade("MAX"), TierShade::Max);
    assert_eq!(tier_shade(" pro "), TierShade::Pro);
    assert_eq!(tier_shade("ProMax"), TierShade::Max);
    assert_eq!(tier_shade("Lite"), TierShade::Lite);
    assert_eq!(tier_shade(""), TierShade::Lite);
    assert_eq!(tier_shade("p r o"), TierShade::Lite);
    assert_eq!(tier_shade("ＰＲＯ"), TierShade::Lite);
}

#[test]
fn panel_model_gathers_settings_and_selection() {
    let general = General {
        poll_interval_secs: 300,
        language: Some("zh".to_string()),
        appearance: None,
        notify_threshold_enabled: true,
        notify_threshold_percent: 80,
        notify_reset_5h_enabled: false,
        notify_reset_weekly_enabled: true,
        peak_start: "14:00".to_string(),
        peak_end: "18:00".to_string(),
        last_news_read: Some("2026-03-01".to_string()),
    };
    let accounts = vec![acc("a1", "One"), acc("b2", "Two")];
    let err = FetchError::Auth;
    let m = PanelModel::from_app(&general, &accounts, Some("b2"), Some(&err), None, true, false, (840, 1080));
    let v = m.account.unwrap();
    assert_eq!((v.index, v.name), (1, "Two"));
    assert_eq!(m.accounts_count, 2);
    assert_eq!(m.poll_interval_secs, 300);
    assert_eq!(m.language, Some("zh"));
    assert_eq!(m.appearance, None);
    assert!(m.autostart && !m.update_available);
    assert!(m.threshold_enabled && !m.reset_5h_enabled && m.reset_weekly_enabled);
    assert_eq!(m.threshold_percent, 80);
    assert_eq!((m.peak_start_raw, m.peak_end_raw), ("14:00", "18:00"));
    assert_eq!(m.peak_range, (840, 1080));
    assert_eq!(m.last_news_read, Some("2026-03-01"));
    assert_eq!(m.error, Some(&FetchError::Auth));
    assert!(m.news.is_none());
    let empty = PanelModel::from_app(&general, &[], None, None, None, false, false, (0, 0));
    assert!(empty.account.is_none());
    assert_eq!(empty.accounts_count, 0);
}

#[test]
fn usage_bar_runs_cover_every_cell() {
    assert_eq!(
        cell_runs(&[(0, 7), (7, 12)], MCP_CELLS),
        vec![(0, 7, Some(0)), (7, 12, Some(1)), (12, 20, None)]
    );
    assert_eq!(
        cell_runs(&[(2, 5), (8, 8)], MCP_CELLS),
        vec![(0, 2, None), (2, 5, Some(0)), (5, 8, None), (8, 8, Some(1)), (8, 20, None)]
    );
    assert_eq!(cell_runs(&[], MCP_CELLS), vec![(0, 20, None)]);
    assert_eq!(cell_runs(&[(0, 20)], MCP_CELLS), vec![(0, 20, Some(0))]);
}
