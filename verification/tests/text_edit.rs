use quotify::text_edit::{next_word_boundary, prev_word_boundary, word_range_at, EditState};

fn es(caret: usize) -> EditState {
    let mut e = EditState::default();
    e.caret = caret;
    e.anchor = caret;
    e
}

#[test]
fn word_bounds_ascii() {
    let t = "hello world";
    assert_eq!(next_word_boundary(t, 0), 5);
    assert_eq!(next_word_boundary(t, 5), 11);
    assert_eq!(prev_word_boundary(t, 11), 6);
    assert_eq!(prev_word_boundary(t, 6), 0);
    assert_eq!(next_word_boundary(t, 6), 11);
}

#[test]
fn word_bounds_dot_is_boundary() {
    let t = "www.example.com";
    assert_eq!(next_word_boundary(t, 0), 3);
    assert_eq!(next_word_boundary(t, 3), 11);
    assert_eq!(prev_word_boundary(t, 15), 12);
}

#[test]
fn word_bounds_cjk_and_mixed() {
    let t = "你好abc世界";
    assert_eq!(next_word_boundary(t, 0), 7);
    assert_eq!(prev_word_boundary(t, 7), 0);
}

#[test]
fn word_range_at_finds_containing_segment() {
    let t = "one two3 four";
    assert_eq!(word_range_at(t, 0), (0, 3));
    assert_eq!(word_range_at(t, 2), (0, 3));
    assert_eq!(word_range_at(t, 4), (4, 8));
    assert_eq!(word_range_at(t, 9), (9, 13));
    assert_eq!(word_range_at(t, 3), (3, 4));
}

#[test]
fn insert_replaces_selection() {
    let mut t = "abc".to_string();
    let mut e = es(3);
    e.anchor = 1;
    e.insert(&mut t, 'X', 128);
    assert_eq!(t, "aX");
    assert_eq!(e.caret, 2);
    assert_eq!(e.anchor, 2);
}

#[test]
fn backspace_word_deletes_leading_word() {
    let mut t = "one two".to_string();
    let mut e = es(7);
    e.backspace(&mut t, true);
    assert_eq!(t, "one ");
    e.backspace(&mut t, true);
    assert_eq!(t, "");
}

#[test]
fn delete_forward_and_word() {
    let mut t = "abc".to_string();
    let mut e = es(0);
    e.delete(&mut t, false);
    assert_eq!(t, "bc");
    let mut t = "foo bar".to_string();
    let mut e = es(0);
    e.delete(&mut t, true);
    assert_eq!(t, " bar");
}

#[test]
fn move_with_selection_collapses() {
    let mut e = es(3);
    e.anchor = 0;
    e.move_left("abc", false, false);
    assert_eq!(e.caret, 0);
    e.anchor = 3;
    e.caret = 0;
    e.move_right("abc", false, false);
    assert_eq!(e.caret, 3);
}

#[test]
fn shift_move_extends_selection() {
    let mut e = es(2);
    e.anchor = 2;
    e.move_left("abcd", false, true);
    assert_eq!(e.caret, 1);
    assert_eq!(e.anchor, 2);
    assert_eq!(e.selection(), Some((1, 2)));
}

#[test]
fn cut_copy_and_paste() {
    let mut t = "hello".to_string();
    let mut e = es(5);
    e.anchor = 0;
    assert_eq!(e.copy(&t), Some("hello"));
    let cut = e.cut(&mut t).unwrap();
    assert_eq!(cut, "hello");
    assert_eq!(t, "");
    e.paste(&mut t, "ab", 128);
    assert_eq!(t, "ab");
    assert_eq!(e.caret, 2);
}

#[test]
fn undo_redo_and_typing_merge() {
    let mut t = String::new();
    let mut e = EditState::default();
    e.insert(&mut t, 'a', 128);
    e.insert(&mut t, 'b', 128);
    e.insert(&mut t, 'c', 128);
    assert_eq!(t, "abc");
    e.undo(&mut t);
    assert_eq!(t, "");
    e.redo(&mut t);
    assert_eq!(t, "abc");
    assert_eq!(e.caret, 3);
}

// ── further cases ─────────────────────────────────────────────────

#[test]
fn word_boundary_past_end_and_empty() {
    assert_eq!(next_word_boundary("abc", 10), 3);
    assert_eq!(next_word_boundary("", 0), 0);
    assert_eq!(prev_word_boundary("", 0), 0);
    assert_eq!(prev_word_boundary("abc", 0), 0);
    assert_eq!(word_range_at("abc", 7), (7, 7));
    assert_eq!(word_range_at("", 0), (0, 0));
}

#[test]
fn word_boundary_stays_inside_text() {
    let t = "a.b c_d  e";
    let n = t.chars().count();
    for caret in 0..n {
        let r = next_word_boundary(t, caret);
        assert!(caret < r && r <= n);
        let p = prev_word_boundary(t, caret + 1);
        assert!(p <= caret);
    }
}

#[test]
fn insert_respects_byte_budget() {
    let mut t = "ab".to_string();
    let mut e = es(2);
    e.insert(&mut t, '好', 4);
    assert_eq!(t, "ab");
    assert_eq!(e.caret, 2);
    e.insert(&mut t, 'c', 3);
    assert_eq!(t, "abc");
    e.insert(&mut t, 'd', 3);
    assert_eq!(t, "abc");
}

#[test]
fn insert_into_middle() {
    let mut t = "ac".to_string();
    let mut e = es(1);
    e.insert(&mut t, 'b', 128);
    assert_eq!(t, "abc");
    assert_eq!(e.caret, 2);
    assert_eq!(e.anchor, 2);
}

#[test]
fn paste_filters_controls_and_truncates() {
    let mut t = "xy".to_string();
    let mut e = es(1);
    e.paste(&mut t, "a\nb\tc", 5);
    assert_eq!(t, "xabcy");
    assert_eq!(e.caret, 4);
    let mut t = "xy".to_string();
    let mut e = es(2);
    e.paste(&mut t, "abcdef", 5);
    assert_eq!(t, "xyabc");
    assert_eq!(e.caret, 5);
    let mut t = String::new();
    let mut e = es(0);
    e.paste(&mut t, "\n\r", 5);
    assert_eq!(t, "");
    e.undo(&mut t);
    assert_eq!(t, "");
}

#[test]
fn paste_wide_char_stops_at_budget() {
    let mut t = String::new();
    let mut e = es(0);
    e.paste(&mut t, "a好b", 3);
    assert_eq!(t, "a");
    assert_eq!(e.caret, 1);
}

#[test]
fn paste_replaces_selection_and_undoes_in_one_step() {
    let mut t = "hello world".to_string();
    let mut e = es(11);
    e.anchor = 6;
    e.paste(&mut t, "there", 128);
    assert_eq!(t, "hello there");
    e.undo(&mut t);
    assert_eq!(t, "hello world");
    assert_eq!(e.caret, 11);
    assert_eq!(e.anchor, 6);
}

#[test]
fn backspace_and_delete_edges() {
    let mut t = "abc".to_string();
    let mut e = es(0);
    e.backspace(&mut t, false);
    assert_eq!(t, "abc");
    e.undo(&mut t);
    assert_eq!(t, "abc");
    let mut e = es(3);
    e.delete(&mut t, false);
    assert_eq!(t, "abc");
    e.backspace(&mut t, false);
    assert_eq!(t, "ab");
    assert_eq!(e.caret, 2);
    e.undo(&mut t);
    assert_eq!(t, "abc");
    assert_eq!(e.caret, 3);
}

#[test]
fn backspace_with_selection_deletes_selection() {
    let mut t = "abcdef".to_string();
    let mut e = es(4);
    e.anchor = 1;
    e.backspace(&mut t, true);
    assert_eq!(t, "aef");
    assert_eq!(e.caret, 1);
    assert_eq!(e.anchor, 1);
}

#[test]
fn cut_without_selection_is_none() {
    let mut t = "abc".to_string();
    let mut e = es(1);
    assert_eq!(e.cut(&mut t), None);
    assert_eq!(e.copy(&t), None);
    assert_eq!(t, "abc");
}

#[test]
fn cut_then_undo_restores() {
    let mut t = "héllo".to_string();
    let mut e = es(1);
    e.anchor = 4;
    assert_eq!(e.copy(&t), Some("éll"));
    assert_eq!(e.cut(&mut t), Some("éll".to_string()));
    assert_eq!(t, "ho");
    e.undo(&mut t);
    assert_eq!(t, "héllo");
    assert_eq!((e.caret, e.anchor), (1, 4));
    e.redo(&mut t);
    assert_eq!(t, "ho");
    assert_eq!((e.caret, e.anchor), (1, 1));
}

#[test]
fn undo_without_history_does_nothing() {
    let mut t = "abc".to_string();
    let mut e = es(2);
    e.undo(&mut t);
    e.redo(&mut t);
    assert_eq!(t, "abc");
    assert_eq!(e.caret, 2);
}

#[test]
fn typing_after_move_is_a_new_step() {
    let mut t = String::new();
    let mut e = EditState::default();
    e.insert(&mut t, 'a', 128);
    e.move_home(false);
    e.insert(&mut t, 'b', 128);
    assert_eq!(t, "ba");
    e.undo(&mut t);
    assert_eq!(t, "a");
    e.undo(&mut t);
    assert_eq!(t, "");
}

#[test]
fn new_edit_drops_redo() {
    let mut t = String::new();
    let mut e = EditState::default();
    e.insert(&mut t, 'a', 128);
    e.undo(&mut t);
    e.insert(&mut t, 'b', 128);
    e.redo(&mut t);
    assert_eq!(t, "b");
}

#[test]
fn undo_stack_keeps_latest_64() {
    let mut t = String::new();
    let mut e = EditState::default();
    for i in 0..70 {
        e.move_end(&t, false);
        e.insert(&mut t, char::from(b'a' + (i % 26) as u8), 1000);
    }
    assert_eq!(t.chars().count(), 70);
    // Only the latest 64 steps can be undone: the first six stay.
    for _ in 0..100 {
        e.undo(&mut t);
    }
    assert_eq!(t, "abcdef");
    assert_eq!((e.caret, e.anchor), (6, 6));
}

#[test]
fn full_undo_stack_drops_the_oldest_step() {
    let mut t = "a".repeat(65);
    let mut e = EditState::default();
    e.caret = 65;
    e.anchor = 65;
    for _ in 0..65 {
        e.backspace(&mut t, false);
    }
    assert_eq!(t, "");
    e.undo(&mut t);
    assert_eq!(t, "a");
    assert_eq!((e.caret, e.anchor), (1, 1));
}

#[test]
fn select_all_ends_a_typing_run() {
    let mut t = String::new();
    let mut e = EditState::default();
    e.insert(&mut t, 'a', 128);
    e.insert(&mut t, 'b', 128);
    e.select_all(&t);
    e.insert(&mut t, 'X', 128);
    assert_eq!(t, "X");
    e.undo(&mut t);
    assert_eq!(t, "ab");
    e.undo(&mut t);
    assert_eq!(t, "");
}

#[test]
fn moves_home_end_select_all_place() {
    let mut e = es(1);
    e.move_end("abcd", true);
    assert_eq!(e.selection(), Some((1, 4)));
    e.move_home(false);
    assert_eq!((e.caret, e.anchor), (0, 0));
    e.select_all("abcd");
    assert_eq!(e.selection(), Some((0, 4)));
    e.place(2, false);
    assert_eq!(e.selection(), None);
    e.caret_to_end("ab好");
    assert_eq!((e.caret, e.anchor), (3, 3));
    e.reset();
    assert_eq!((e.caret, e.anchor), (0, 0));
}

#[test]
fn word_moves() {
    let mut e = es(0);
    e.move_right("foo bar", true, false);
    assert_eq!(e.caret, 3);
    e.move_right("foo bar", true, false);
    assert_eq!(e.caret, 7);
    e.move_left("foo bar", true, true);
    assert_eq!(e.selection(), Some((4, 7)));
    e.move_right("foo bar", false, false);
    assert_eq!(e.caret, 7);
}

#[test]
fn edits_keep_caret_and_anchor_in_text() {
    fn inside(e: &EditState, t: &str) -> bool {
        let n = t.chars().count();
        e.caret <= n && e.anchor <= n
    }
    let mut e = EditState::default();
    let mut t = String::new();
    for c in "héllo wörld".chars() {
        e.insert(&mut t, c, 128);
        assert!(inside(&e, &t));
    }
    e.move_left(&t, true, true);
    assert!(inside(&e, &t));
    e.backspace(&mut t, false);
    assert!(inside(&e, &t));
    e.move_home(false);
    e.move_right(&t, true, false);
    e.delete(&mut t, true);
    assert!(inside(&e, &t));
    e.select_all(&t);
    let cut = e.cut(&mut t);
    assert!(cut.is_some() && inside(&e, &t));
    e.paste(&mut t, "a\u{7}b🙂c", 128);
    assert!(inside(&e, &t));
    for _ in 0..3 {
        e.move_end(&t, false);
        e.backspace(&mut t, true);
        assert!(inside(&e, &t));
    }
    for _ in 0..5 {
        e.undo(&mut t);
        assert!(inside(&e, &t));
    }
    for _ in 0..5 {
        e.redo(&mut t);
        assert!(inside(&e, &t));
    }
}
