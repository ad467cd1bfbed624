use nudge::word_jump::{
    apply_word_key, delete_char_range, next_word_boundary, previous_word_boundary, CharRange,
    WordKey,
};

#[test]
fn next_ascii_skips_word_then_stops_before_space() {
    assert_eq!(next_word_boundary("hello world", 0), 5);
}

#[test]
fn next_ascii_from_space_consumes_space_and_word() {
    assert_eq!(next_word_boundary("hello world", 5), 11);
}

#[test]
fn next_at_end_is_noop() {
    assert_eq!(next_word_boundary("hello", 5), 5);
}

#[test]
fn next_empty_is_noop() {
    assert_eq!(next_word_boundary("", 0), 0);
}

#[test]
fn next_single_char_advances_to_end() {
    assert_eq!(next_word_boundary("a", 0), 1);
}

#[test]
fn next_cyrillic_stops_before_space() {
    assert_eq!(next_word_boundary("привет мир", 0), 6);
}

#[test]
fn next_cyrillic_from_space_consumes_to_end() {
    assert_eq!(next_word_boundary("привет мир", 6), 10);
}

#[test]
fn next_mixed_stops_at_script_change_only_via_space() {
    assert_eq!(next_word_boundary("test тест", 0), 4);
    assert_eq!(next_word_boundary("test тест", 4), 9);
}

#[test]
fn prev_ascii_jumps_to_word_start() {
    assert_eq!(previous_word_boundary("hello world", 11), 6);
}

#[test]
fn prev_ascii_through_space_to_start() {
    assert_eq!(previous_word_boundary("hello world", 6), 0);
}

#[test]
fn prev_at_start_is_noop() {
    assert_eq!(previous_word_boundary("hello", 0), 0);
}

#[test]
fn prev_empty_is_noop() {
    assert_eq!(previous_word_boundary("", 0), 0);
}

#[test]
fn prev_cyrillic_jumps_to_word_start() {
    assert_eq!(previous_word_boundary("привет мир", 10), 7);
}

#[test]
fn prev_cyrillic_through_space_to_start() {
    assert_eq!(previous_word_boundary("привет мир", 7), 0);
}

#[test]
fn prev_mixed() {
    assert_eq!(previous_word_boundary("test тест", 9), 5);
    assert_eq!(previous_word_boundary("test тест", 5), 0);
}

// ---- further cases -------------------------------------------

#[test]
fn next_past_end_stays_put() {
    assert_eq!(next_word_boundary("abc", 7), 7);
}

#[test]
fn underscore_is_part_of_a_word() {
    assert_eq!(next_word_boundary("snake_case x", 0), 10);
    assert_eq!(previous_word_boundary("snake_case", 10), 0);
}

#[test]
fn delete_char_range_removes_chars_not_bytes() {
    let mut s = "привет мир".to_string();
    delete_char_range(&mut s, 0, 7);
    assert_eq!(s, "мир");
    let mut t = "abc".to_string();
    delete_char_range(&mut t, 1, 9);
    assert_eq!(t, "a");
}

#[test]
fn ctrl_backspace_deletes_previous_word() {
    let mut s = "hello world".to_string();
    let r = apply_word_key(&mut s, CharRange::one(11), WordKey::Backspace, false);
    assert_eq!(s, "hello ");
    assert_eq!(r, CharRange::one(6));
}

#[test]
fn ctrl_delete_deletes_next_word() {
    let mut s = "привет мир".to_string();
    let r = apply_word_key(&mut s, CharRange::one(0), WordKey::Delete, false);
    assert_eq!(s, " мир");
    assert_eq!(r, CharRange::one(0));
}

#[test]
fn ctrl_shift_right_extends_selection() {
    let mut s = "hello world".to_string();
    let r = apply_word_key(&mut s, CharRange::one(0), WordKey::ArrowRight, true);
    assert_eq!(r, CharRange { primary: 5, secondary: 0 });
    assert_eq!(s, "hello world");
    let r2 = apply_word_key(&mut s, r, WordKey::ArrowLeft, false);
    assert_eq!(r2, CharRange::one(0));
}

#[test]
fn ctrl_backspace_with_selection_deletes_selection() {
    let mut s = "hello world".to_string();
    let r = apply_word_key(&mut s, CharRange { primary: 2, secondary: 8 }, WordKey::Backspace, false);
    assert_eq!(s, "herld");
    assert_eq!(r, CharRange::one(2));
}
