use quotify::input::{click_count, CharOutcome, EditKey, PanelInput};
use quotify::panel::{anchored_origin, drag_origin, fit_height, InputField, Rect};

fn focused(field: InputField, text: &str) -> PanelInput {
    let mut p = PanelInput::new();
    match field {
        InputField::Proxy => p.proxy = text.to_string(),
        InputField::Key => p.key = text.to_string(),
        _ => p.interval = text.to_string(),
    }
    p.focus(field);
    p
}

#[test]
fn focus_switch_resets_and_lands_at_end() {
    let mut p = focused(InputField::Proxy, "host:1");
    assert_eq!(p.edit.caret, 6);
    p.edit.place(2, false);
    assert!(!p.focus(InputField::Proxy));
    assert_eq!(p.edit.caret, 2);
    p.surrogate = Some(0xD83D);
    assert!(p.focus(InputField::Name));
    assert_eq!(p.edit.caret, 0);
    assert_eq!(p.surrogate, None);
    assert_eq!(p.proxy, "host:1");
}

#[test]
fn keys_move_delete_undo() {
    let mut p = focused(InputField::Proxy, "foo bar");
    assert!(p.handle_key(EditKey::Left, true, false));
    assert_eq!(p.edit.caret, 4);
    assert!(p.handle_key(EditKey::Delete, true, false));
    assert_eq!(p.proxy, "foo ");
    assert!(!p.handle_key(EditKey::Z, false, false));
    assert!(p.handle_key(EditKey::Z, true, false));
    assert_eq!(p.proxy, "foo bar");
    assert!(p.handle_key(EditKey::Z, true, true));
    assert_eq!(p.proxy, "foo ");
    assert!(p.handle_key(EditKey::Z, true, false));
    assert!(p.handle_key(EditKey::Y, true, false));
    assert_eq!(p.proxy, "foo ");
    assert!(p.handle_key(EditKey::Home, false, true));
    assert_eq!(p.edit.selection(), Some((0, 4)));
    assert!(p.handle_key(EditKey::End, false, false));
    assert_eq!(p.edit.selection(), None);
}

#[test]
fn keys_need_focus() {
    let mut p = PanelInput::new();
    p.interval = "12".to_string();
    assert!(!p.handle_key(EditKey::Delete, false, false));
    assert_eq!(p.handle_char('x', false, false), CharOutcome::Nothing);
    assert_eq!(p.interval, "12");
}

#[test]
fn chars_type_and_control() {
    let mut p = focused(InputField::Interval, "");
    assert_eq!(p.handle_char('4', false, false), CharOutcome::Nothing);
    assert_eq!(p.handle_char('5', false, false), CharOutcome::Nothing);
    assert_eq!(p.interval, "45");
    assert_eq!(p.handle_char('\r', false, false), CharOutcome::Confirm);
    assert_eq!(p.handle_char('\u{8}', false, false), CharOutcome::Nothing);
    assert_eq!(p.interval, "4");
    assert_eq!(p.handle_char('\u{1b}', false, false), CharOutcome::Nothing);
    assert_eq!(p.interval, "4");
    assert_eq!(p.handle_char('\u{16}', true, false), CharOutcome::ReadClipboard);
    p.paste_clipboard("2\n0");
    assert_eq!(p.interval, "420");
}

#[test]
fn copy_and_cut_conventions() {
    let mut p = focused(InputField::Proxy, "abc");
    assert_eq!(p.handle_char('\u{3}', true, false), CharOutcome::Clipboard("abc".to_string()));
    p.edit.place(1, true);
    assert_eq!(p.handle_char('\u{3}', true, false), CharOutcome::Clipboard("bc".to_string()));
    assert_eq!(p.handle_char('\u{18}', true, false), CharOutcome::Clipboard("bc".to_string()));
    assert_eq!(p.proxy, "a");
    assert_eq!(p.handle_char('\u{18}', true, false), CharOutcome::Clipboard("a".to_string()));
    assert_eq!(p.proxy, "");
    assert_eq!(p.handle_char('\u{18}', true, false), CharOutcome::Nothing);
    assert_eq!(p.handle_char('\u{3}', true, false), CharOutcome::Nothing);
}

#[test]
fn masked_key_is_not_copied() {
    let mut p = focused(InputField::Key, "secret-key");
    assert_eq!(p.handle_char('\u{3}', true, true), CharOutcome::Nothing);
    assert_eq!(p.handle_char('\u{18}', true, true), CharOutcome::Nothing);
    assert_eq!(p.key, "secret-key");
    assert_eq!(p.field_display(false), "••••••••••");
    assert_eq!(p.field_display(true), "secret-key");
    p.handle_char('\u{1}', true, true);
    assert_eq!(p.edit.selection(), Some((0, 10)));
}

#[test]
fn ctrl_backspace_deletes_word() {
    let mut p = focused(InputField::Proxy, "one two");
    p.handle_char('\u{7f}', true, false);
    assert_eq!(p.proxy, "one ");
    p.handle_char('\u{8}', true, false);
    assert_eq!(p.proxy, "");
}

#[test]
fn surrogate_pairs_decode() {
    let mut p = focused(InputField::Name, "");
    let units: Vec<u16> = "a😀".encode_utf16().collect();
    assert_eq!(p.decode_unit(units[0]), Some('a'));
    assert_eq!(p.decode_unit(units[1]), None);
    assert_eq!(p.decode_unit(units[2]), Some('😀'));
    assert_eq!(p.surrogate, None);
    assert_eq!(p.decode_unit(0xDC00), None);
    assert_eq!(p.decode_unit(0xD800), None);
    assert_eq!(p.decode_unit(0x41), Some('A'));
    assert_eq!(p.surrogate, None);
}

#[test]
fn clicks_select_word_or_all() {
    let mut p = focused(InputField::Proxy, "one two3 four");
    p.click(1, 5, false, false);
    assert_eq!(p.edit.selection(), None);
    assert_eq!(p.edit.caret, 5);
    p.click(2, 5, false, false);
    assert_eq!(p.edit.selection(), Some((4, 8)));
    p.click(3, 5, false, false);
    assert_eq!(p.edit.selection(), Some((0, 13)));
    p.click(1, 2, true, false);
    assert_eq!(p.edit.selection(), Some((0, 2)));
    p.click(2, 5, false, true);
    assert_eq!(p.edit.selection(), Some((0, 13)));
}

#[test]
fn click_runs() {
    assert_eq!(click_count(None, 1000, 0, 0), 1);
    assert_eq!(click_count(Some((1000, 10, 10, 1)), 1400, 14, 14), 2);
    assert_eq!(click_count(Some((1000, 10, 10, 2)), 1500, 10, 18), 3);
    assert_eq!(click_count(Some((1000, 10, 10, 3)), 1100, 10, 10), 3);
    assert_eq!(click_count(Some((1000, 10, 10, 1)), 1501, 10, 10), 1);
    assert_eq!(click_count(Some((1000, 10, 10, 1)), 1100, 19, 10), 1);
    // the tick counter wraps
    assert_eq!(click_count(Some((u32::MAX - 100, 0, 0, 1)), 100, 0, 0), 2);
}

#[test]
fn panel_placement() {
    let work = Rect { left: 0, top: 0, right: 1920, bottom: 1040 };
    let anchor = Rect { left: 1800, top: 1050, right: 1824, bottom: 1080 };
    assert_eq!(anchored_origin(anchor, work, 510, 600, 12), (1402, 438));
    let anchor = Rect { left: 0, top: 300, right: 20, bottom: 330 };
    assert_eq!(anchored_origin(anchor, work, 510, 600, 12), (8, 8));
    assert_eq!(fit_height(2000, false, work, 300), 1024);
    assert_eq!(fit_height(2000, true, work, 300), 2000);
    assert_eq!(fit_height(500, false, work, 300), 500);
    let tiny = Rect { left: 0, top: 0, right: 800, bottom: 100 };
    assert_eq!(fit_height(500, false, tiny, 300), 300);
}

#[test]
fn drag_keeps_corner_on_screen() {
    let work = Rect { left: 0, top: 0, right: 1920, bottom: 1040 };
    assert_eq!(drag_origin(500, 400, 10, 10, 510, 600, work), (490, 390));
    assert_eq!(drag_origin(-900, -900, 10, 10, 510, 600, work), (-446, -536));
    assert_eq!(drag_origin(5000, 5000, 10, 10, 510, 600, work), (1856, 976));
}

#[test]
fn reopening_clears_settings_drafts_only() {
    let mut p = focused(InputField::Proxy, "host:1");
    p.interval = "15".to_string();
    p.peak_start = "9:00".to_string();
    p.peak_end = "18:00".to_string();
    p.name = "work".to_string();
    p.key = "sk-123".to_string();
    p.surrogate = Some(0xD83D);
    p.reset_settings();
    assert_eq!(p.field, None);
    assert_eq!(p.surrogate, None);
    assert_eq!((p.edit.caret, p.edit.anchor), (0, 0));
    assert!(p.interval.is_empty() && p.proxy.is_empty());
    assert!(p.peak_start.is_empty() && p.peak_end.is_empty());
    assert_eq!((p.name.as_str(), p.key.as_str()), ("work", "sk-123"));
}
