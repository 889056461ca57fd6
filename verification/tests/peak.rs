use chrono::{Datelike, FixedOffset, TimeZone, Timelike};
use quotify::peak::{fmt_range, is_peak, is_peak_at, parse_hhmm, WallClock, DEFAULT_PEAK};

fn at(hour: u32, min: u32, weekday_offset: i64) -> WallClock {
    // 2026-08-24 is a Monday; offsets 0..6 cover one week
    let dt = FixedOffset::east_opt(8 * 3600)
        .unwrap()
        .with_ymd_and_hms(2026, 8, (24 + weekday_offset) as u32, hour, min, 0)
        .unwrap();
    WallClock {
        weekday: dt.weekday().number_from_monday(),
        hour: dt.hour(),
        minute: dt.minute(),
    }
}

#[test]
fn peak_boundaries() {
    assert!(is_peak(at(14, 0, 0), DEFAULT_PEAK));
    assert!(is_peak(at(17, 59, 0), DEFAULT_PEAK));
    assert!(!is_peak(at(18, 0, 0), DEFAULT_PEAK));
    assert!(!is_peak(at(13, 59, 0), DEFAULT_PEAK));
}

#[test]
fn weekends_never_peak() {
    assert!(is_peak(at(15, 0, 4), DEFAULT_PEAK));
    assert!(!is_peak(at(15, 0, 5), DEFAULT_PEAK));
    assert!(!is_peak(at(15, 0, 6), DEFAULT_PEAK));
}

#[test]
fn custom_range() {
    let r = (9 * 60 + 30, 12 * 60);
    assert!(is_peak(at(9, 30, 0), r));
    assert!(is_peak(at(11, 59, 0), r));
    assert!(!is_peak(at(12, 0, 0), r));
    assert!(!is_peak(at(9, 29, 0), r));
}

#[test]
fn overnight_range() {
    let r = (14 * 60, 9 * 60);
    assert!(is_peak(at(14, 0, 0), r));
    assert!(is_peak(at(23, 59, 0), r));
    assert!(is_peak(at(0, 0, 1), r));
    assert!(is_peak(at(8, 59, 1), r));
    assert!(!is_peak(at(9, 0, 1), r));
    assert!(!is_peak(at(13, 59, 0), r));
}

#[test]
fn hhmm_roundtrip() {
    assert_eq!(parse_hhmm("14:00"), Some(14 * 60));
    assert_eq!(parse_hhmm(" 9:5 "), Some(9 * 60 + 5));
    assert_eq!(parse_hhmm("24:00"), None);
    assert_eq!(parse_hhmm("12:60"), None);
    assert_eq!(parse_hhmm("abc"), None);
    assert_eq!(fmt_range(DEFAULT_PEAK), "14:00–18:00");
}

// ── further cases ─────────────────────────────────────────────────

#[test]
fn parse_hhmm_edge_cases() {
    assert_eq!(parse_hhmm("+9:+05"), Some(9 * 60 + 5));
    assert_eq!(parse_hhmm("09:05"), Some(9 * 60 + 5));
    assert_eq!(parse_hhmm("0:0"), Some(0));
    assert_eq!(parse_hhmm("23:59"), Some(23 * 60 + 59));
    assert_eq!(parse_hhmm(":30"), None);
    assert_eq!(parse_hhmm("12:"), None);
    assert_eq!(parse_hhmm("1:2:3"), None);
    assert_eq!(parse_hhmm("-1:00"), None);
    assert_eq!(parse_hhmm("1 :00"), None);
    assert_eq!(parse_hhmm("99999999999:00"), None);
    assert_eq!(parse_hhmm("\u{3000}08:30\t"), Some(8 * 60 + 30));
    assert_eq!(parse_hhmm(""), None);
}

#[test]
fn fmt_range_pads_and_wraps() {
    assert_eq!(fmt_range((0, 5)), "00:00–00:05");
    assert_eq!(fmt_range((9 * 60 + 30, 12 * 60)), "09:30–12:00");
    assert_eq!(fmt_range((6000, 59)), "100:00–00:59");
}

#[test]
fn hhmm_roundtrip_every_minute() {
    for t in 0..1440u32 {
        let s = fmt_range((t, t));
        let first: String = s.chars().take_while(|c| *c != '–').collect();
        assert_eq!(parse_hhmm(&first), Some(t));
    }
}

#[test]
fn peak_at_weekday_numbers() {
    assert!(is_peak_at(1, 840, DEFAULT_PEAK));
    assert!(is_peak_at(5, 1079, DEFAULT_PEAK));
    assert!(!is_peak_at(6, 900, DEFAULT_PEAK));
    assert!(!is_peak_at(7, 900, DEFAULT_PEAK));
    assert!(!is_peak_at(0, 900, DEFAULT_PEAK));
    // equal bounds: the half-open range is empty
    assert!(!is_peak_at(2, 0, (600, 600)));
    assert!(!is_peak_at(2, 600, (600, 600)));
    assert!(!is_peak_at(2, 1439, (600, 600)));
    assert!(!is_peak(at(10, 0, 0), (600, 600)));
}

#[test]
fn fmt_range_halves_read_back() {
    for (s, e) in [(0u32, 1439u32), (840, 1080), (1439, 0), (599, 600)] {
        let f = fmt_range((s, e));
        let (l, r) = f.split_once('–').unwrap();
        assert_eq!((l.len(), r.len()), (5, 5));
        assert_eq!(parse_hhmm(l), Some(s));
        assert_eq!(parse_hhmm(r), Some(e));
    }
}
